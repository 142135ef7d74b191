//! Build-then-parse round trips and error classification for every codec.

use pdu::{
    ArpParser, ArpPdu, Error, EthernetParser, EthernetPdu, HttpParser, HttpPdu, IcmpParser,
    IcmpPdu, Ipv4Parser, Ipv4PseudoHeader, Ipv4Pdu, IpPseudoHeader, TcpParser, TcpPdu, UdpParser,
    UdpPdu, ARP_OP_REPLY, ETHERTYPE_DOT1Q, ETHERTYPE_IPV4, IPPROTO_UDP,
};

#[test]
fn arp_round_trip() {
    let mut b = ArpPdu::new();
    b.opcode(ARP_OP_REPLY);
    b.sender_hardware_address([1, 2, 3, 4, 5, 6]);
    b.sender_protocol_address([10, 0, 0, 1]);
    b.target_hardware_address([7, 8, 9, 10, 11, 12]);
    b.target_protocol_address([10, 0, 0, 2]);
    let bytes = b.as_bytes();
    assert_eq!(bytes.len(), 28);
    let p = ArpParser::parse(bytes).unwrap();
    assert_eq!(p.hardware_type(), 1);
    assert_eq!(p.protocol_type(), 0x0800);
    assert_eq!(p.hardware_length(), 6);
    assert_eq!(p.protocol_length(), 4);
    assert_eq!(p.opcode(), ARP_OP_REPLY);
    assert_eq!(p.sender_hardware_address(), [1, 2, 3, 4, 5, 6]);
    assert_eq!(p.sender_protocol_address(), [10, 0, 0, 1]);
    assert_eq!(p.target_hardware_address(), [7, 8, 9, 10, 11, 12]);
    assert_eq!(p.target_protocol_address(), [10, 0, 0, 2]);
}

#[test]
fn arp_errors() {
    assert_eq!(ArpParser::parse(&[0u8; 27]).unwrap_err(), Error::Truncated);
    let mut b = ArpPdu::new();
    b.hardware_length(8);
    assert_eq!(ArpParser::parse(b.as_bytes()).unwrap_err(), Error::Malformed);
    let mut b2 = ArpPdu::new();
    b2.protocol_length(16);
    assert_eq!(ArpParser::parse(b2.as_bytes()).unwrap_err(), Error::Malformed);
}

#[test]
fn ethernet_round_trip_untagged() {
    let mut b = EthernetPdu::new(ETHERTYPE_IPV4);
    b.destination_address([1, 2, 3, 4, 5, 6]);
    b.source_address([7, 8, 9, 10, 11, 12]);
    b.inner(&[0xAA; 46]).unwrap();
    let frame = b.as_bytes();
    // 14-byte header + 46-byte payload + 4-byte frame check sequence
    assert_eq!(frame.len(), 64);
    let p = EthernetParser::parse(&frame).unwrap();
    assert_eq!(p.destination_address(), [1, 2, 3, 4, 5, 6]);
    assert_eq!(p.source_address(), [7, 8, 9, 10, 11, 12]);
    assert_eq!(p.ethertype(), ETHERTYPE_IPV4);
    assert_eq!(p.computed_ihl(), 14);
    assert_eq!(p.vlan(), None);
    assert_eq!(p.vlan_pcp(), None);
    assert_eq!(p.vlan_dei(), None);
}

#[test]
fn ethernet_round_trip_tagged() {
    let mut b = EthernetPdu::new(ETHERTYPE_DOT1Q);
    b.destination_address([1, 1, 1, 1, 1, 1]);
    b.source_address([2, 2, 2, 2, 2, 2]);
    b.ethertype(ETHERTYPE_IPV4);
    b.vlan(0x123);
    b.vlan_pcp(5);
    b.vlan_dei(true);
    b.inner(&[0x55; 10]).unwrap();
    let frame = b.as_bytes();
    // 18-byte tagged header + body padded to 46 + 4-byte check sequence
    assert_eq!(frame.len(), 68);
    let p = EthernetParser::parse(&frame).unwrap();
    assert_eq!(p.tpid(), ETHERTYPE_DOT1Q);
    assert_eq!(p.computed_ihl(), 18);
    assert_eq!(p.ethertype(), ETHERTYPE_IPV4);
    assert_eq!(p.vlan(), Some(0x123));
    assert_eq!(p.vlan_pcp(), Some(5));
    assert_eq!(p.vlan_dei(), Some(true));
}

#[test]
fn ethernet_minimum_frame_padding() {
    let mut b = EthernetPdu::new(ETHERTYPE_IPV4);
    b.inner(&[1, 2, 3]).unwrap();
    // Short payloads pad to the 46-byte minimum body.
    assert_eq!(b.as_bytes().len(), 14 + 46 + 4);
    let mut b2 = EthernetPdu::new(ETHERTYPE_IPV4);
    b2.inner(&[9; 100]).unwrap();
    assert_eq!(b2.as_bytes().len(), 14 + 100 + 4);
}

#[test]
fn ethernet_frame_check_sequence_is_crc32() {
    let mut b = EthernetPdu::new(ETHERTYPE_IPV4);
    b.destination_address([1, 2, 3, 4, 5, 6]);
    b.inner(&[0x42; 46]).unwrap();
    let frame = b.as_bytes();
    let n = frame.len();
    let fcs = pdu::crc32(&frame[..n - 4]);
    assert_eq!(&frame[n - 4..], &fcs.to_be_bytes()[..]);
}

#[test]
fn ethernet_errors() {
    assert_eq!(EthernetParser::parse(&[0u8; 13]).unwrap_err(), Error::Truncated);
    // Tagged frame cut off before the 18-byte tagged header.
    let short_tagged: [u8; 16] = [0, 0, 0, 0, 0, 0, 0, 0, 0, 0, 0, 0, 0x81, 0x00, 0, 0];
    assert_eq!(EthernetParser::parse(&short_tagged).unwrap_err(), Error::Truncated);
    // A legacy 802.3 length field in place of the ethertype.
    let legacy = [0u8; 14];
    assert_eq!(EthernetParser::parse(&legacy).unwrap_err(), Error::Malformed);
}

#[test]
fn ethernet_oversized_payload() {
    let mut b = EthernetPdu::new(ETHERTYPE_IPV4);
    assert_eq!(b.inner(&[0u8; 1501]).unwrap_err(), Error::Oversized);
}

#[test]
fn ipv4_round_trip() {
    let mut b = Ipv4Pdu::new();
    b.dscp(0x2E);
    b.ecn(1);
    b.identification(0xBEEF);
    b.dont_fragment(true);
    b.more_fragments(false);
    b.ttl(0x40);
    b.protocol(IPPROTO_UDP);
    b.source_address([192, 168, 0, 1]);
    b.destination_address([192, 168, 0, 2]);
    b.inner(&[9, 8, 7, 6]).unwrap();
    b.compute_checksum();
    let bytes = b.as_bytes();
    assert_eq!(bytes.len(), 24);
    let p = Ipv4Parser::parse(bytes).unwrap();
    assert_eq!(p.version(), 4);
    assert_eq!(p.ihl(), 5);
    assert_eq!(p.computed_ihl(), 20);
    assert_eq!(p.dscp(), 0x2E);
    assert_eq!(p.ecn(), 1);
    assert_eq!(p.total_length(), 24);
    assert_eq!(p.identification(), 0xBEEF);
    assert!(p.dont_fragment());
    assert!(!p.more_fragments());
    assert_eq!(p.fragment_offset(), 0);
    assert_eq!(p.ttl(), 0x40);
    assert_eq!(p.protocol(), IPPROTO_UDP);
    assert_eq!(p.source_address(), [192, 168, 0, 1]);
    assert_eq!(p.destination_address(), [192, 168, 0, 2]);
    // The self-inverting checksum identity: recomputation matches the field.
    assert_eq!(p.computed_checksum(), p.checksum());
}

#[test]
fn ipv4_fragment_offset_round_trip() {
    let mut b = Ipv4Pdu::new();
    b.more_fragments(true);
    b.fragment_offset(0x1ABC);
    let bytes = b.as_bytes();
    let p = Ipv4Parser::parse(bytes).unwrap();
    assert_eq!(p.fragment_offset(), 0x1ABC);
    assert_eq!(p.computed_fragment_offset(), 0x1ABC * 8);
    assert!(p.more_fragments());
    assert!(!p.dont_fragment());
}

#[test]
fn ipv4_errors() {
    assert_eq!(Ipv4Parser::parse(&[0x45u8; 19]).unwrap_err(), Error::Truncated);
    // Declared header length below 20 bytes.
    let mut low_ihl = [0u8; 20];
    low_ihl[0] = 0x44;
    assert_eq!(Ipv4Parser::parse(&low_ihl).unwrap_err(), Error::Truncated);
    // Declared header longer than the buffer.
    let mut long_ihl = [0u8; 20];
    long_ihl[0] = 0x46;
    assert_eq!(Ipv4Parser::parse(&long_ihl).unwrap_err(), Error::Malformed);
    // Total length below the header length.
    let mut short_total = [0u8; 20];
    short_total[0] = 0x45;
    short_total[3] = 10;
    assert_eq!(Ipv4Parser::parse(&short_total).unwrap_err(), Error::Malformed);
    // Wrong version.
    let mut bad_version = [0u8; 20];
    bad_version[0] = 0x65;
    bad_version[3] = 20;
    assert_eq!(Ipv4Parser::parse(&bad_version).unwrap_err(), Error::Malformed);
}

#[test]
fn ipv4_oversized_payload() {
    let mut b = Ipv4Pdu::new();
    assert_eq!(b.inner(&[0u8; 1481]).unwrap_err(), Error::Oversized);
}

#[test]
fn tcp_round_trip() {
    let mut b = TcpPdu::new();
    b.source_port(80);
    b.destination_port(51234);
    b.sequence_number(0x01020304);
    b.acknowledgement_number(0x0A0B0C0D);
    b.syn(true);
    b.ack(true);
    b.urgent_pointer(0x77);
    b.compute_checksum(&IpPseudoHeader::Ipv4(Ipv4PseudoHeader {
        source_address: [10, 0, 0, 1],
        destination_address: [10, 0, 0, 2],
        protocol: 6,
    }));
    let bytes = b.as_bytes();
    assert_eq!(bytes.len(), 20);
    let p = TcpParser::parse(bytes).unwrap();
    assert_eq!(p.source_port(), 80);
    assert_eq!(p.destination_port(), 51234);
    assert_eq!(p.sequence_number(), 0x01020304);
    assert_eq!(p.acknowledgement_number(), 0x0A0B0C0D);
    assert_eq!(p.data_offset(), 5);
    assert_eq!(p.computed_data_offset(), 20);
    assert!(p.syn() && p.ack());
    assert!(!p.fin() && !p.rst() && !p.psh() && !p.urg() && !p.ecn() && !p.cwr());
    assert_eq!(p.flags(), 0x12);
    assert_eq!(p.window_size(), 0xFFFF);
    assert_eq!(p.computed_window_size(2), 0xFFFF << 2);
    assert_eq!(p.urgent_pointer(), 0x77);
}

#[test]
fn tcp_flag_setters_touch_only_their_bit() {
    let mut b = TcpPdu::new();
    b.fin(true);
    b.syn(true);
    b.rst(true);
    b.psh(true);
    b.ack(true);
    b.urg(true);
    b.ecn(true);
    b.cwr(true);
    let p = TcpParser::parse(b.as_bytes()).unwrap();
    assert_eq!(p.flags(), 0xFF);
    let mut b2 = TcpPdu::new();
    b2.flags(0xFF);
    b2.syn(false);
    b2.urg(false);
    let p2 = TcpParser::parse(b2.as_bytes()).unwrap();
    assert_eq!(p2.flags(), 0xFF & !0x02 & !0x20);
}

#[test]
fn tcp_checksum_validates_against_pseudo_header() {
    let mut b = TcpPdu::new();
    b.source_port(1);
    b.destination_port(2);
    b.inner(b"hello").unwrap();
    let ph = Ipv4PseudoHeader {
        source_address: [1, 2, 3, 4],
        destination_address: [5, 6, 7, 8],
        protocol: 6,
    };
    b.compute_checksum(&IpPseudoHeader::Ipv4(ph));
    let seg = b.as_bytes();
    // Summing pseudo-header and segment with the stored checksum gives zero.
    let len = (seg.len() as u16).to_be_bytes();
    let total = pdu::checksum(&[
        &[1, 2, 3, 4],
        &[5, 6, 7, 8],
        &[0, 6],
        &len,
        seg,
    ]);
    assert_eq!(total, 0);
}

#[test]
fn tcp_errors() {
    assert_eq!(TcpParser::parse(&[0u8; 19]).unwrap_err(), Error::Truncated);
    // Declared data offset beyond the buffer.
    let mut long_doff = [0u8; 20];
    long_doff[12] = 0x60;
    assert_eq!(TcpParser::parse(&long_doff).unwrap_err(), Error::Truncated);
}

#[test]
fn tcp_oversized_payload() {
    let mut b = TcpPdu::new();
    assert_eq!(b.inner(&[0u8; 1461]).unwrap_err(), Error::Oversized);
}

#[test]
fn udp_round_trip() {
    let mut b = UdpPdu::new();
    b.source_port(1000);
    b.destination_port(2000);
    b.inner(&[1, 2, 3, 4, 5]).unwrap();
    b.compute_checksum(&IpPseudoHeader::Ipv4(Ipv4PseudoHeader {
        source_address: [10, 0, 0, 1],
        destination_address: [10, 0, 0, 2],
        protocol: IPPROTO_UDP,
    }));
    let bytes = b.as_bytes();
    assert_eq!(bytes.len(), 13);
    let p = UdpParser::parse(bytes).unwrap();
    assert_eq!(p.source_port(), 1000);
    assert_eq!(p.destination_port(), 2000);
    assert_eq!(p.length(), 13);
    assert_ne!(p.checksum(), 0);
    match p.inner().unwrap() {
        pdu::Udp::Raw(s) => assert_eq!(s, &[1, 2, 3, 4, 5]),
    }
    // Pseudo-header plus datagram, checksum field included, sums to zero.
    let total = pdu::checksum(&[
        &[10, 0, 0, 1],
        &[10, 0, 0, 2],
        &[0, IPPROTO_UDP],
        &bytes[4..6],
        bytes,
    ]);
    assert_eq!(total, 0);
}

#[test]
fn udp_declared_length_bounds_payload() {
    let mut b = UdpPdu::new();
    b.inner(&[9; 10]).unwrap();
    let mut bytes = b.as_bytes().to_vec();
    // Shrink the declared length below the payload's physical extent.
    bytes[4] = 0;
    bytes[5] = 12;
    let p = UdpParser::parse(&bytes).unwrap();
    match p.inner().unwrap() {
        pdu::Udp::Raw(s) => assert_eq!(s, &[9, 9, 9, 9]),
    }
    // A declared length beyond the buffer is malformed.
    bytes[5] = 19;
    let p2 = UdpParser::parse(&bytes).unwrap();
    assert_eq!(p2.inner().unwrap_err(), Error::Malformed);
    // A declared length below the header is malformed.
    bytes[5] = 7;
    let p3 = UdpParser::parse(&bytes).unwrap();
    assert_eq!(p3.inner().unwrap_err(), Error::Malformed);
}

#[test]
fn udp_errors() {
    assert_eq!(UdpParser::parse(&[0u8; 7]).unwrap_err(), Error::Truncated);
    let mut b = UdpPdu::new();
    assert_eq!(b.inner(&[0u8; 1473]).unwrap_err(), Error::Oversized);
}

#[test]
fn icmp_round_trip() {
    let mut b = IcmpPdu::new();
    b.message_type(8);
    b.message_code(0);
    b.inner(&[1, 2, 3, 4, 5, 6, 7, 8]).unwrap();
    b.compute_checksum();
    let bytes = b.as_bytes();
    assert_eq!(bytes.len(), 12);
    let p = IcmpParser::parse(bytes).unwrap();
    assert_eq!(p.message_type(), 8);
    assert_eq!(p.message_code(), 0);
    assert_eq!(p.computed_checksum(), p.checksum());
    match p.inner().unwrap() {
        pdu::Icmp::Raw(s) => assert_eq!(s, &[1, 2, 3, 4, 5, 6, 7, 8]),
    }
    // The whole message, checksum field included, sums to zero.
    assert_eq!(pdu::checksum(&[bytes]), 0);
}

#[test]
fn icmp_errors() {
    assert_eq!(IcmpParser::parse(&[0u8; 7]).unwrap_err(), Error::Truncated);
    let mut b = IcmpPdu::new();
    assert_eq!(b.inner(&[0u8; 1477]).unwrap_err(), Error::Oversized);
}

#[test]
fn http_response_round_trip() {
    let mut b = HttpPdu::new();
    let body = b"<html>hi</html>";
    b.inner(body).unwrap();
    let bytes = b.as_bytes();
    let expected =
        b"HTTP/1.1 200 OK\r\ncontent-type: text/html\r\ncontent-length: 15\r\n\r\n<html>hi</html>";
    assert_eq!(bytes, &expected[..]);
    let p = HttpParser::parse(bytes).unwrap();
    assert_eq!(
        p.header(),
        &b"HTTP/1.1 200 OK\r\ncontent-type: text/html\r\ncontent-length: 15\r\n\r\n"[..]
    );
    match p.inner().unwrap() {
        pdu::Http::Raw(s) => assert_eq!(s, body),
    }
}

#[test]
fn http_method_recognition() {
    let get = HttpParser::parse(b"GET / HTTP/1.1\r\n\r\n").unwrap();
    assert_eq!(get.method(), Some("GET"));
    let post = HttpParser::parse(b"POST / HTTP/1.1\r\n\r\n").unwrap();
    assert_eq!(post.method(), Some("POST"));
    let other = HttpParser::parse(b"PUT / HTTP/1.1\r\n\r\n").unwrap();
    assert_eq!(other.method(), None);
    let short = HttpParser::parse(b"GE").unwrap();
    assert_eq!(short.method(), None);
}

#[test]
fn http_boundary_variants() {
    // A bare \n\n boundary is found before any \r\n\r\n.
    let p = HttpParser::parse(b"a\n\nbody").unwrap();
    match p.inner().unwrap() {
        pdu::Http::Raw(s) => assert_eq!(s, b"body"),
    }
    assert_eq!(p.header(), b"a\n\n");
    // No boundary at all yields an empty header and body.
    let q = HttpParser::parse(b"GET / HTTP/1.1").unwrap();
    assert_eq!(q.header(), b"");
    match q.inner().unwrap() {
        pdu::Http::Raw(s) => assert_eq!(s, b""),
    }
}

#[test]
fn http_oversized_body() {
    let mut b = HttpPdu::new();
    assert_eq!(b.inner(&[0u8; 1399]).unwrap_err(), Error::Oversized);
}
