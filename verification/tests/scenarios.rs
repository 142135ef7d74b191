//! End-to-end scenarios through the frame handler: ARP, ICMP echo, UDP echo,
//! and the TCP connection lifecycle serving the static page.

use pdu::{
    handle_frame, ArpParser, ArpPdu, Ethernet, EthernetParser, EthernetPdu, IcmpParser, IcmpPdu,
    Ipv4, Ipv4Parser, Ipv4Pdu, NodeConfig, TcpParser, TcpPdu, TcpState, UdpParser, UdpPdu,
    Xorshift32, ARP_OP_REPLY, ARP_OP_REQUEST, ETHERTYPE_ARP, ETHERTYPE_IPV4, ICMP_ECHO_REQUEST,
    IPPROTO_ICMP, IPPROTO_TCP, IPPROTO_UDP,
};

const MAC: [u8; 6] = [0x02, 0x00, 0x00, 0x00, 0x00, 0x01];
const IP: [u8; 4] = [192, 168, 0, 1];
const PEER_MAC: [u8; 6] = [0x02, 0x00, 0x00, 0x00, 0x00, 0x02];
const PEER_IP: [u8; 4] = [192, 168, 0, 2];
const PAGE: &[u8] = b"<html>hi</html>";

fn config() -> NodeConfig {
    NodeConfig::new(MAC, IP, PAGE.to_vec())
}

fn wrap_eth(ethertype: u16, payload: &[u8]) -> Vec<u8> {
    let mut eth = EthernetPdu::new(ethertype);
    eth.destination_address(MAC);
    eth.source_address(PEER_MAC);
    eth.inner(payload).unwrap();
    eth.as_bytes()
}

fn wrap_ipv4(protocol: u8, payload: &[u8]) -> Vec<u8> {
    let mut ip = Ipv4Pdu::new();
    ip.protocol(protocol);
    ip.source_address(PEER_IP);
    ip.destination_address(IP);
    ip.inner(payload).unwrap();
    ip.compute_checksum();
    wrap_eth(ETHERTYPE_IPV4, ip.as_bytes())
}

fn tcp_frame(flags_setter: impl Fn(&mut TcpPdu), seq: u32, ack: u32, payload: &[u8]) -> Vec<u8> {
    let mut tcp = TcpPdu::new();
    tcp.source_port(55000);
    tcp.destination_port(80);
    tcp.sequence_number(seq);
    tcp.acknowledgement_number(ack);
    flags_setter(&mut tcp);
    tcp.inner(payload).unwrap();
    wrap_ipv4(IPPROTO_TCP, tcp.as_bytes())
}

#[test]
fn arp_request_draws_swapped_reply() {
    let mut arp = ArpPdu::new();
    arp.opcode(ARP_OP_REQUEST);
    arp.sender_hardware_address(PEER_MAC);
    arp.sender_protocol_address(PEER_IP);
    arp.target_protocol_address(IP);
    let frame = wrap_eth(ETHERTYPE_ARP, arp.as_bytes());

    let cfg = config();
    let mut rng = Xorshift32::new(0xFF);
    let r = handle_frame(&cfg, TcpState::Closed, &mut rng, &frame);
    assert_eq!(r.next_state, TcpState::Listen);
    assert_eq!(r.indicator, None);
    let reply = r.frame.expect("an ARP request for this node draws a reply");

    let eth = EthernetParser::parse(&reply).unwrap();
    assert_eq!(eth.ethertype(), ETHERTYPE_ARP);
    assert_eq!(eth.destination_address(), PEER_MAC);
    assert_eq!(eth.source_address(), MAC);
    let msg = ArpParser::parse(&reply[14..42]).unwrap();
    assert_eq!(msg.opcode(), ARP_OP_REPLY);
    assert_eq!(msg.sender_hardware_address(), MAC);
    assert_eq!(msg.sender_protocol_address(), IP);
    assert_eq!(msg.target_hardware_address(), PEER_MAC);
    assert_eq!(msg.target_protocol_address(), PEER_IP);
}

#[test]
fn arp_request_for_other_address_is_ignored() {
    let mut arp = ArpPdu::new();
    arp.opcode(ARP_OP_REQUEST);
    arp.target_protocol_address([10, 9, 8, 7]);
    let frame = wrap_eth(ETHERTYPE_ARP, arp.as_bytes());
    let cfg = config();
    let mut rng = Xorshift32::new(0xFF);
    let r = handle_frame(&cfg, TcpState::Listen, &mut rng, &frame);
    assert!(r.frame.is_none());
    assert_eq!(r.next_state, TcpState::Listen);
}

#[test]
fn icmp_echo_request_draws_validating_reply() {
    let mut icmp = IcmpPdu::new();
    icmp.message_type(ICMP_ECHO_REQUEST);
    icmp.inner(&[0xDE, 0xAD, 0xBE, 0xEF, 1, 2, 3, 4]).unwrap();
    icmp.compute_checksum();
    let frame = wrap_ipv4(IPPROTO_ICMP, icmp.as_bytes());

    let cfg = config();
    let mut rng = Xorshift32::new(0xFF);
    let r = handle_frame(&cfg, TcpState::Listen, &mut rng, &frame);
    let reply = r.frame.expect("an echo request draws an echo reply");

    let eth = EthernetParser::parse(&reply).unwrap();
    assert_eq!(eth.destination_address(), PEER_MAC);
    let ip = match eth.inner().unwrap() {
        Ethernet::Ipv4(p) => p,
        _ => panic!("expected an IPv4 reply"),
    };
    assert_eq!(ip.protocol(), IPPROTO_ICMP);
    assert_eq!(ip.source_address(), IP);
    assert_eq!(ip.destination_address(), PEER_IP);
    // The rebuilt header checksum validates.
    assert_eq!(ip.computed_checksum(), ip.checksum());
    match ip.inner().unwrap() {
        Ipv4::Icmp(_) => {}
        _ => panic!("expected an ICMP payload"),
    }
    // The echo message proper ends where the IP total length says; past it
    // lie only the link layer's padding and frame check sequence.
    let message = &reply[14 + 20..14 + ip.total_length() as usize];
    let echo = IcmpParser::parse(message).unwrap();
    assert_eq!(echo.message_type(), 0);
    // The echoed payload opens with the request payload byte for byte (the
    // rest is the request frame's own link-layer padding, echoed verbatim),
    // and the reply checksum validates on recomputation.
    match echo.inner().unwrap() {
        pdu::Icmp::Raw(s) => assert_eq!(&s[..8], &[0xDE, 0xAD, 0xBE, 0xEF, 1, 2, 3, 4]),
    }
    assert_eq!(echo.computed_checksum(), echo.checksum());
}

#[test]
fn icmp_non_echo_is_ignored() {
    let mut icmp = IcmpPdu::new();
    icmp.message_type(13);
    icmp.inner(&[0; 8]).unwrap();
    icmp.compute_checksum();
    let frame = wrap_ipv4(IPPROTO_ICMP, icmp.as_bytes());
    let cfg = config();
    let mut rng = Xorshift32::new(0xFF);
    let r = handle_frame(&cfg, TcpState::Listen, &mut rng, &frame);
    assert!(r.frame.is_none());
}

#[test]
fn udp_datagram_is_echoed_with_ports_swapped() {
    let mut udp = UdpPdu::new();
    udp.source_port(4000);
    udp.destination_port(7);
    udp.inner(b"ping!").unwrap();
    let frame = wrap_ipv4(IPPROTO_UDP, udp.as_bytes());

    let cfg = config();
    let mut rng = Xorshift32::new(0xFF);
    let r = handle_frame(&cfg, TcpState::Listen, &mut rng, &frame);
    let reply = r.frame.expect("a UDP datagram is echoed");

    let eth = EthernetParser::parse(&reply).unwrap();
    let ip = match eth.inner().unwrap() {
        Ethernet::Ipv4(p) => p,
        _ => panic!("expected an IPv4 reply"),
    };
    assert_eq!(ip.protocol(), IPPROTO_UDP);
    let udp_reply = match ip.inner().unwrap() {
        Ipv4::Udp(p) => p,
        _ => panic!("expected a UDP payload"),
    };
    assert_eq!(udp_reply.source_port(), 7);
    assert_eq!(udp_reply.destination_port(), 4000);
    assert_eq!(udp_reply.length(), 13);
    match udp_reply.inner().unwrap() {
        pdu::Udp::Raw(s) => assert_eq!(s, b"ping!"),
    }
}

#[test]
fn udp_zero_checksum_is_transmitted_as_ffff() {
    // Ports and payload chosen so the reply's computed checksum is exactly
    // zero; the wire value must then be 0xffff, never 0x0000.
    let mut udp = UdpPdu::new();
    udp.source_port(0x1234);
    udp.destination_port(0x5678);
    udp.inner(&[21, 218]).unwrap();
    let frame = wrap_ipv4(IPPROTO_UDP, udp.as_bytes());

    let cfg = config();
    let mut rng = Xorshift32::new(0xFF);
    let r = handle_frame(&cfg, TcpState::Listen, &mut rng, &frame);
    let reply = r.frame.expect("a UDP datagram is echoed");
    let eth = EthernetParser::parse(&reply).unwrap();
    let ip = match eth.inner().unwrap() {
        Ethernet::Ipv4(p) => p,
        _ => panic!("expected an IPv4 reply"),
    };
    let udp_reply = match ip.inner().unwrap() {
        Ipv4::Udp(p) => p,
        _ => panic!("expected a UDP payload"),
    };
    assert_eq!(udp_reply.checksum(), 0xFFFF);
    // Even with the substituted value, the datagram still validates: the
    // pseudo-header plus the datagram sums to zero.
    let ulen = 10;
    let dg = &reply[34..34 + ulen];
    let total = pdu::checksum(&[&IP, &PEER_IP, &[0, IPPROTO_UDP], &dg[4..6], dg]);
    assert_eq!(total, 0);
}

fn parse_tcp_reply(reply: &[u8]) -> (Ipv4Parser<'_>, TcpParser<'_>) {
    let eth = EthernetParser::parse(reply).unwrap();
    let ip = match eth.inner().unwrap() {
        Ethernet::Ipv4(p) => p,
        _ => panic!("expected an IPv4 reply"),
    };
    let tcp = match ip.inner().unwrap() {
        Ipv4::Tcp(p) => p,
        _ => panic!("expected a TCP payload"),
    };
    (ip, tcp)
}

#[test]
fn tcp_syn_draws_syn_ack_and_opens() {
    let cfg = config();
    let mut rng = Xorshift32::new(0xFF);
    let syn = tcp_frame(|t| t.syn(true), 1000, 0, &[]);
    let r = handle_frame(&cfg, TcpState::Closed, &mut rng, &syn);
    assert_eq!(r.next_state, TcpState::SynReceived);
    let reply = r.frame.expect("a SYN in Listen draws a SYN+ACK");
    let (_, tcp) = parse_tcp_reply(&reply);
    assert!(tcp.syn() && tcp.ack());
    assert!(!tcp.fin() && !tcp.psh() && !tcp.rst());
    assert_eq!(tcp.acknowledgement_number(), 1001);
    // The initial sequence number comes from the seeded generator.
    assert_eq!(tcp.sequence_number(), 0x03e3fef0);
    assert_eq!(tcp.source_port(), 80);
    assert_eq!(tcp.destination_port(), 55000);

    // The handshake ACK establishes the connection and lights the indicator.
    let ack = tcp_frame(|t| t.ack(true), 1001, 0x03e3fef1, &[]);
    let r2 = handle_frame(&cfg, r.next_state, &mut rng, &ack);
    assert_eq!(r2.next_state, TcpState::Established);
    assert!(r2.frame.is_none());
    assert_eq!(r2.indicator, Some(true));
}

#[test]
fn tcp_get_is_served_the_page() {
    let cfg = config();
    let mut rng = Xorshift32::new(0xFF);
    let request = b"GET / HTTP/1.1\r\n\r\n";
    let psh = tcp_frame(
        |t| {
            t.psh(true);
            t.ack(true);
        },
        2000,
        500,
        request,
    );
    let r = handle_frame(&cfg, TcpState::Established, &mut rng, &psh);
    assert_eq!(r.next_state, TcpState::Established);
    let reply = r.frame.expect("a GET under PSH+ACK is served");
    let (ip, tcp) = parse_tcp_reply(&reply);
    assert!(tcp.psh() && tcp.ack());
    assert_eq!(tcp.sequence_number(), 500);
    // Acknowledges exactly the received payload length.
    assert_eq!(tcp.acknowledgement_number(), 2000 + request.len() as u32);
    let body_start = 20 + tcp.computed_data_offset();
    let payload = &reply[14 + body_start..14 + ip.total_length() as usize];
    let expected =
        b"HTTP/1.1 200 OK\r\ncontent-type: text/html\r\ncontent-length: 15\r\n\r\n<html>hi</html>";
    assert_eq!(payload, &expected[..]);
}

#[test]
fn tcp_non_get_push_is_acked_without_body() {
    let cfg = config();
    let mut rng = Xorshift32::new(0xFF);
    let psh = tcp_frame(
        |t| {
            t.psh(true);
            t.ack(true);
        },
        2000,
        500,
        b"PUT / HTTP/1.1\r\n\r\n",
    );
    let r = handle_frame(&cfg, TcpState::Established, &mut rng, &psh);
    let reply = r.frame.expect("PSH+ACK is acknowledged");
    let (ip, tcp) = parse_tcp_reply(&reply);
    assert!(tcp.ack() && !tcp.psh());
    assert_eq!(ip.total_length(), 40); // bare headers, no body
}

#[test]
fn tcp_fin_teardown_closes_connection() {
    let cfg = config();
    let mut rng = Xorshift32::new(0xFF);
    let fin = tcp_frame(
        |t| {
            t.fin(true);
            t.ack(true);
        },
        3000,
        700,
        &[],
    );
    let r = handle_frame(&cfg, TcpState::Established, &mut rng, &fin);
    assert_eq!(r.next_state, TcpState::LastAck);
    let reply = r.frame.expect("FIN+ACK draws FIN+ACK");
    let (_, tcp) = parse_tcp_reply(&reply);
    assert!(tcp.fin() && tcp.ack());
    assert_eq!(tcp.sequence_number(), 700);
    assert_eq!(tcp.acknowledgement_number(), 3001);

    let last = tcp_frame(|t| t.ack(true), 3001, 701, &[]);
    let r2 = handle_frame(&cfg, r.next_state, &mut rng, &last);
    assert_eq!(r2.next_state, TcpState::Closed);
    assert!(r2.frame.is_none());
    assert_eq!(r2.indicator, Some(false));
}

#[test]
fn tcp_exact_flag_matching_ignores_extra_bits() {
    // SYN plus any extra flag is not the exact SYN combination: ignored.
    let cfg = config();
    let mut rng = Xorshift32::new(0xFF);
    let syn_urg = tcp_frame(
        |t| {
            t.syn(true);
            t.urg(true);
        },
        1000,
        0,
        &[],
    );
    let r = handle_frame(&cfg, TcpState::Listen, &mut rng, &syn_urg);
    assert!(r.frame.is_none());
    assert_eq!(r.next_state, TcpState::Listen);
}

#[test]
fn ipv4_fragment_payload_stays_raw() {
    // A non-zero fragment offset forbids interpreting the payload as a
    // known transport protocol.
    let mut udp = UdpPdu::new();
    udp.inner(b"data").unwrap();
    let mut ip = Ipv4Pdu::new();
    ip.protocol(IPPROTO_UDP);
    ip.fragment_offset(3);
    ip.inner(udp.as_bytes()).unwrap();
    ip.compute_checksum();
    let bytes = ip.as_bytes();
    let p = Ipv4Parser::parse(bytes).unwrap();
    match p.inner().unwrap() {
        Ipv4::Raw(s) => assert_eq!(s.len(), 12),
        _ => panic!("a fragment must stay raw"),
    }

    // The stack accordingly ignores it: no echo is sent.
    let frame = wrap_eth(ETHERTYPE_IPV4, bytes);
    let cfg = config();
    let mut rng = Xorshift32::new(0xFF);
    let r = handle_frame(&cfg, TcpState::Listen, &mut rng, &frame);
    assert!(r.frame.is_none());
}

#[test]
fn unparseable_frames_are_discarded() {
    let cfg = config();
    let mut rng = Xorshift32::new(0xFF);
    let r = handle_frame(&cfg, TcpState::Closed, &mut rng, &[1, 2, 3]);
    assert!(r.frame.is_none());
    // The closed connection still reopens to listening.
    assert_eq!(r.next_state, TcpState::Listen);
}
