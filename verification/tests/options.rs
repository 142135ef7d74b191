//! Walking IPv4 and TCP option blocks, including the early-termination
//! behaviour on boundaries and malformed lengths.

use pdu::{Ipv4Option, Ipv4Parser, TcpOption, TcpParser};

fn tcp_header_with_options(options: &[u8]) -> Vec<u8> {
    assert!(options.len() % 4 == 0);
    let mut seg = vec![0u8; 20 + options.len()];
    seg[12] = (((20 + options.len()) / 4) as u8) << 4;
    seg[20..].copy_from_slice(options);
    seg
}

#[test]
fn tcp_option_walk_yields_all_variants_in_order() {
    // NOP, MSS 1460, window scale 7, SACK-permitted, and a 2-block SACK:
    // 1 + 4 + 3 + 2 + 18 = 28 bytes of options.
    let mut opts = vec![1u8];
    opts.extend_from_slice(&[2, 4, 0x05, 0xB4]);
    opts.extend_from_slice(&[3, 3, 7]);
    opts.extend_from_slice(&[4, 2]);
    opts.push(5);
    opts.push(18);
    for block in [(0x1000u32, 0x2000u32), (0x3000, 0x4000)] {
        opts.extend_from_slice(&block.0.to_be_bytes());
        opts.extend_from_slice(&block.1.to_be_bytes());
    }
    let seg = tcp_header_with_options(&opts);
    let p = TcpParser::parse(&seg).unwrap();
    let mut it = p.options();
    assert!(matches!(it.next(), Some(TcpOption::NoOp)));
    assert!(matches!(it.next(), Some(TcpOption::Mss { size: 1460 })));
    assert!(matches!(it.next(), Some(TcpOption::WindowScale { shift: 7 })));
    assert!(matches!(it.next(), Some(TcpOption::SackPermitted)));
    match it.next() {
        Some(TcpOption::Sack { blocks }) => {
            assert_eq!(
                blocks,
                [Some((0x1000, 0x2000)), Some((0x3000, 0x4000)), None, None]
            );
        }
        other => panic!("expected a SACK option, got {:?}", other.is_some()),
    }
    assert!(it.next().is_none());
}

#[test]
fn tcp_option_timestamp_and_raw() {
    let mut opts = vec![8u8, 10];
    opts.extend_from_slice(&0xAABBCCDDu32.to_be_bytes());
    opts.extend_from_slice(&0x11223344u32.to_be_bytes());
    // An unknown kind is carried raw rather than rejected.
    opts.extend_from_slice(&[200, 2]);
    let seg = tcp_header_with_options(&opts);
    let p = TcpParser::parse(&seg).unwrap();
    let mut it = p.options();
    assert!(matches!(
        it.next(),
        Some(TcpOption::Timestamp { val: 0xAABBCCDD, ecr: 0x11223344 })
    ));
    match it.next() {
        Some(TcpOption::Raw { option, data }) => {
            assert_eq!(option, 200);
            assert_eq!(data, &[200, 2]);
        }
        _ => panic!("expected a raw option"),
    }
    assert!(it.next().is_none());
}

#[test]
fn tcp_option_known_kind_with_wrong_length_is_raw() {
    // MSS declared with length 6 instead of 4 decodes as raw.
    let opts = [2u8, 6, 1, 2, 3, 4, 1, 1];
    let seg = tcp_header_with_options(&opts);
    let p = TcpParser::parse(&seg).unwrap();
    let mut it = p.options();
    match it.next() {
        Some(TcpOption::Raw { option, data }) => {
            assert_eq!(option, 2);
            assert_eq!(data.len(), 6);
        }
        _ => panic!("expected a raw option"),
    }
}

#[test]
fn tcp_option_list_crossing_boundary_terminates_early() {
    // Kind 2 declares 10 bytes but only 4 remain before the header end:
    // the walk stops without error.
    let opts = [2u8, 10, 0, 0];
    let seg = tcp_header_with_options(&opts);
    let p = TcpParser::parse(&seg).unwrap();
    let mut it = p.options();
    assert!(it.next().is_none());
}

#[test]
fn tcp_option_end_of_list_stops_walk() {
    let opts = [1u8, 0, 2, 4];
    let seg = tcp_header_with_options(&opts);
    let p = TcpParser::parse(&seg).unwrap();
    let mut it = p.options();
    assert!(matches!(it.next(), Some(TcpOption::NoOp)));
    assert!(it.next().is_none());
    // The walk stays stopped.
    assert!(it.next().is_none());
}

#[test]
fn tcp_option_length_under_two_stops_walk() {
    let opts = [2u8, 1, 0, 0];
    let seg = tcp_header_with_options(&opts);
    let p = TcpParser::parse(&seg).unwrap();
    let mut it = p.options();
    assert!(it.next().is_none());
}

#[test]
fn ipv4_option_walk() {
    let mut pkt = vec![0u8; 28];
    pkt[0] = 0x47; // header length 28: 8 bytes of options
    pkt[3] = 28;
    pkt[20] = 1; // no-op, carried raw with its single byte
    pkt[21] = 7; // kind 7, length 3
    pkt[22] = 3;
    pkt[23] = 0xAA;
    pkt[24] = 0; // end-of-options, carried raw by the IPv4 walk
    let p = Ipv4Parser::parse(&pkt).unwrap();
    let mut it = p.options();
    match it.next() {
        Some(Ipv4Option::Raw { option, data }) => {
            assert_eq!(option, 1);
            assert_eq!(data, &[1]);
        }
        _ => panic!("expected the no-op"),
    }
    match it.next() {
        Some(Ipv4Option::Raw { option, data }) => {
            assert_eq!(option, 7);
            assert_eq!(data, &[7, 3, 0xAA]);
        }
        _ => panic!("expected the kind-7 option"),
    }
    match it.next() {
        Some(Ipv4Option::Raw { option, data }) => {
            assert_eq!(option, 0);
            assert_eq!(data, &[0]);
        }
        _ => panic!("expected the end-of-options byte"),
    }
    // The remaining padding decodes as further raw bytes until the boundary.
    assert!(it.next().is_some());
    assert!(it.next().is_some());
    assert!(it.next().is_some());
    assert!(it.next().is_none());
}

#[test]
fn ipv4_option_crossing_boundary_terminates_early() {
    let mut pkt = vec![0u8; 24];
    pkt[0] = 0x46; // header length 24: 4 bytes of options
    pkt[3] = 24;
    pkt[20] = 9;
    pkt[21] = 40; // declared far past the header end
    let p = Ipv4Parser::parse(&pkt).unwrap();
    let mut it = p.options();
    assert!(it.next().is_none());
}

#[test]
fn ipv4_builder_options_extend_header() {
    let mut b = pdu::Ipv4Pdu::new();
    b.options(&[7, 3, 0xAA]).unwrap();
    b.inner(&[1, 2]).unwrap();
    let bytes = b.as_bytes();
    let p = Ipv4Parser::parse(bytes).unwrap();
    // 3 option bytes round up to a 4-byte boundary: header length 24.
    assert_eq!(p.computed_ihl(), 24);
    assert_eq!(p.total_length(), 26);
    assert_eq!(&bytes[20..23], &[7, 3, 0xAA]);
}

#[test]
fn tcp_builder_options_extend_header() {
    let mut b = pdu::TcpPdu::new();
    b.options(&[3, 3, 7]).unwrap();
    b.inner(&[9]).unwrap();
    let bytes = b.as_bytes();
    let p = TcpParser::parse(bytes).unwrap();
    assert_eq!(p.computed_data_offset(), 24);
    let mut it = p.options();
    assert!(matches!(it.next(), Some(TcpOption::WindowScale { shift: 7 })));
}
