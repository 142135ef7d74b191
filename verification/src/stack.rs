//! Control logic of the node: the per-frame decision core that parses one
//! inbound Ethernet frame, answers ARP requests, ICMP echo requests and UDP
//! datagrams, and drives the single TCP connection through its lifecycle,
//! emitting at most one outbound frame per inbound frame. The surrounding
//! link driver owns receive and transmit; this module owns every decision
//! between them.

use vstd::prelude::*;

use crate::arp::arp_opcode;
use crate::arp::arp_sender_hardware;
use crate::arp::arp_sender_protocol;
use crate::arp::arp_target_protocol;
use crate::arp::arp_valid;
use crate::arp::ArpPdu;
use crate::arp::ArpParser;
use crate::arp::ARP_OP_REPLY;
use crate::arp::ARP_OP_REQUEST;
use crate::ethernet::eth_destination;
use crate::ethernet::eth_ethertype;
use crate::ethernet::eth_source;
use crate::ethernet::eth_fcs_ok;
use crate::ethernet::eth_valid;
use crate::ethernet::EthernetParser;
use crate::ethernet::eth_payload;
use crate::ethernet::Ethernet;
use crate::ethernet::EthernetPdu;
use crate::ethernet::ETHERTYPE_ARP;
use crate::ethernet::ETHERTYPE_IPV4;
use crate::icmp::icmp_checksum;
use crate::icmp::icmp_code;
use crate::icmp::icmp_csum_input;
use crate::icmp::icmp_payload;
use crate::icmp::icmp_type;
use crate::icmp::Icmp;
use crate::icmp::IcmpParser;
use crate::icmp::IcmpPdu;
use crate::icmp::ICMP_ECHO_REPLY;
use crate::icmp::icmp_valid;
use crate::icmp::ICMP_ECHO_REQUEST;
use crate::http::http_is_get;
use crate::http::http_response_bytes;
use crate::http::HttpParser;
use crate::http::HttpPdu;
use crate::ip::ipv4_checksum;
use crate::ip::ipv4_csum_input;
use crate::ip::ipv4_destination;
use crate::ip::ipv4_header_len;
use crate::ip::ipv4_payload;
use crate::ip::ipv4_protocol;
use crate::ip::ipv4_source;
use crate::ip::ipv4_total_length;
use crate::ip::ipv4_valid;
use crate::ip::Ipv4;
use crate::ip::Ipv4Parser;
use crate::ip::Ipv4Pdu;
use crate::ip::Ipv4PseudoHeader;
use crate::ip::IpPseudoHeader;
use crate::ip::ipv4_fragment_offset;
use crate::ip::IPPROTO_ICMP;
use crate::ip::IPPROTO_TCP;
use crate::ip::IPPROTO_UDP;
use crate::udp::udp_checksum;
use crate::udp::udp_csum_input;
use crate::udp::udp_destination_port;
use crate::udp::udp_length;
use crate::udp::udp_source_port;
use crate::udp::udp_wire_checksum;
use crate::udp::Udp;
use crate::udp::UdpParser;
use crate::udp::udp_valid;
use crate::udp::UdpPdu;
use crate::tcp::tcp_acknowledgement_number;
use crate::tcp::tcp_checksum;
use crate::tcp::tcp_csum_input;
use crate::tcp::tcp_destination_port;
use crate::tcp::tcp_flags;
use crate::tcp::tcp_header_len;
use crate::tcp::tcp_payload;
use crate::tcp::tcp_sequence_number;
use crate::tcp::tcp_source_port;
use crate::tcp::tcp_valid;
use crate::tcp::tcp_window_size;
use crate::tcp::Tcp;
use crate::tcp::TcpParser;
use crate::tcp::TcpPdu;
use crate::tcp::TcpState;
use crate::tcp::TCP_ACK;
use crate::tcp::TCP_FIN;
use crate::tcp::TCP_PSH;
use crate::tcp::TCP_SYN;
use crate::util::checksum_spec;
use crate::util::lemma_digits_small;
use crate::util::xorshift_step;
use crate::util::Xorshift32;
use crate::wire::add_wrap32;
use crate::wire::wrap_add32;
use crate::{Error, PduResult};

verus! {

/// The node's fixed identity and content: a hardware address, an IPv4
/// address, and the one static page it serves. All are immutable for the
/// process lifetime.
pub struct NodeConfig {
    pub mac: [u8; 6],
    pub ip: [u8; 4],
    pub page: Vec<u8>,
}

impl NodeConfig {
    /// The page must leave room for the response header inside every
    /// enclosing layer's budget.
    pub open spec fn wf(&self) -> bool {
        self.page@.len() <= 1394
    }

    pub fn new(mac: [u8; 6], ip: [u8; 4], page: Vec<u8>) -> (r: NodeConfig)
        requires
            page@.len() <= 1394,
        ensures
            r.mac@ == mac@,
            r.ip@ == ip@,
            r.page@ == page@,
            r.wf(),
    {
        NodeConfig { mac, ip, page }
    }
}

/// Element-wise equality of two 4-byte addresses.
fn eq_addr4(a: &[u8; 4], b: &[u8; 4]) -> (r: bool)
    ensures
        r == (a@ == b@),
{
    let r = a[0] == b[0] && a[1] == b[1] && a[2] == b[2] && a[3] == b[3];
    proof {
        if r {
            assert(a@ =~= b@);
        }
    }
    r
}

/// What the ARP reply to a request carries: opcode 2, the node as sender,
/// the requester as target, wrapped in a frame back to the requester's
/// hardware address with the node as source.
pub open spec fn arp_reply_ok(
    mac: Seq<u8>,
    ip: Seq<u8>,
    ein: Seq<u8>,
    ain: Seq<u8>,
    out: Seq<u8>,
) -> bool {
    let msg = out.subrange(14, 42);
    &&& eth_valid(out)
    &&& eth_fcs_ok(out)
    &&& out.len() <= 1522
    &&& eth_ethertype(out) == ETHERTYPE_ARP
    &&& eth_destination(out) == eth_source(ein)
    &&& eth_source(out) == mac
    &&& arp_valid(msg)
    &&& arp_opcode(msg) == ARP_OP_REPLY
    &&& arp_sender_hardware(msg) == mac
    &&& arp_sender_protocol(msg) == ip
    &&& crate::arp::arp_target_hardware(msg) == arp_sender_hardware(ain)
    &&& arp_target_protocol(msg) == arp_sender_protocol(ain)
}

/// Answers an ARP request for the node's address with an ARP reply; any
/// other message draws no frame.
pub fn handle_arp(cfg: &NodeConfig, eth: &EthernetParser<'_>, arp: &ArpParser<'_>) -> (r: Option<
    Vec<u8>,
>)
    requires
        eth.wf(),
        arp.wf(),
    ensures
        (r is Some) <==> (arp_opcode(arp.bytes()) == ARP_OP_REQUEST && arp_target_protocol(
            arp.bytes(),
        ) == cfg.ip@),
        match r {
            Some(f) => arp_reply_ok(cfg.mac@, cfg.ip@, eth.bytes(), arp.bytes(), f@),
            None => true,
        },
{
    let target = arp.target_protocol_address();
    if arp.opcode() == ARP_OP_REQUEST && eq_addr4(&target, &cfg.ip) {
        let mut arp_pdu = ArpPdu::new();
        arp_pdu.opcode(ARP_OP_REPLY);
        arp_pdu.sender_hardware_address(cfg.mac);
        arp_pdu.sender_protocol_address(cfg.ip);
        arp_pdu.target_hardware_address(arp.sender_hardware_address());
        arp_pdu.target_protocol_address(arp.sender_protocol_address());
        proof {
            assert(arp_sender_hardware(arp_pdu.bytes()) =~= cfg.mac@);
            assert(arp_sender_protocol(arp_pdu.bytes()) =~= cfg.ip@);
            assert(crate::arp::arp_target_hardware(arp_pdu.bytes()) =~= arp_sender_hardware(
                arp.bytes(),
            ));
            assert(arp_target_protocol(arp_pdu.bytes()) =~= arp_sender_protocol(arp.bytes()));
        }

        let mut ethernet_pdu = EthernetPdu::new(ETHERTYPE_ARP);
        ethernet_pdu.destination_address(eth.source_address());
        ethernet_pdu.source_address(cfg.mac);
        match ethernet_pdu.inner(arp_pdu.as_bytes()) {
            Ok(_) => {},
            Err(_) => {
                return None;
            },
        }
        proof {
            assert(eth_destination(ethernet_pdu.bytes()) =~= eth_source(eth.bytes()));
            assert(eth_source(ethernet_pdu.bytes()) =~= cfg.mac@);
            crate::ethernet::lemma_ethernet_round_trip(ethernet_pdu);
        }
        let frame = ethernet_pdu.as_bytes();
        proof {
            assert(frame@.subrange(14, 42) =~= arp_pdu.bytes());
        }
        Some(frame)
    } else {
        None
    }
}


/// What the ICMP echo reply carries: type 0 with the request's payload and a
/// checksum that validates, inside an IPv4 packet with the request's
/// addresses swapped and a valid header checksum, inside a frame with the
/// request's link addresses swapped.
pub open spec fn icmp_echo_reply_ok(ein: Seq<u8>, iin: Seq<u8>, cin: Seq<u8>, out: Seq<u8>) -> bool {
    let plen = icmp_payload(cin).len() as int;
    let ip_out = out.subrange(14, 14 + 24 + plen);
    let icmp_out = ip_out.skip(20);
    &&& eth_valid(out)
    &&& eth_fcs_ok(out)
    &&& out.len() <= 1522
    &&& eth_ethertype(out) == ETHERTYPE_IPV4
    &&& eth_destination(out) == eth_source(ein)
    &&& eth_source(out) == eth_destination(ein)
    &&& ipv4_valid(ip_out)
    &&& ipv4_header_len(ip_out) == 20
    &&& ipv4_protocol(ip_out) == IPPROTO_ICMP
    &&& ipv4_total_length(ip_out) == 24 + plen
    &&& ipv4_source(ip_out) == ipv4_destination(iin)
    &&& ipv4_destination(ip_out) == ipv4_source(iin)
    &&& ipv4_checksum(ip_out) == checksum_spec(ipv4_csum_input(ip_out))
    &&& icmp_type(icmp_out) == ICMP_ECHO_REPLY
    &&& icmp_code(icmp_out) == 0
    &&& icmp_payload(icmp_out) == icmp_payload(cin)
    &&& icmp_checksum(icmp_out) == checksum_spec(icmp_csum_input(icmp_out))
}

/// Answers an ICMP echo request with an echo reply carrying the identical
/// payload; any other message type draws no frame, and an echo request whose
/// payload would not fit the reply budget is dropped.
pub fn handle_icmp(
    eth: &EthernetParser<'_>,
    ipv4: &Ipv4Parser<'_>,
    icmp: &IcmpParser<'_>,
) -> (r: Option<Vec<u8>>)
    requires
        eth.wf(),
        ipv4.wf(),
        icmp.wf(),
    ensures
        (r is Some) <==> (icmp_type(icmp.bytes()) == ICMP_ECHO_REQUEST && icmp_payload(
            icmp.bytes(),
        ).len() <= 1476),
        match r {
            Some(f) => icmp_echo_reply_ok(eth.bytes(), ipv4.bytes(), icmp.bytes(), f@),
            None => true,
        },
{
    if icmp.message_type() != ICMP_ECHO_REQUEST {
        return None;
    }
    let mut icmp_pdu = IcmpPdu::new();
    icmp_pdu.message_type(ICMP_ECHO_REPLY);
    match icmp.inner() {
        Ok(Icmp::Raw(raw_rcvd)) => {
            match icmp_pdu.inner(raw_rcvd) {
                Ok(_) => {},
                Err(_) => {
                    return None;
                },
            }
        },
        Err(_) => {
            return None;
        },
    }
    icmp_pdu.compute_checksum();
    proof {
        assert(icmp_payload(icmp_pdu.out_bytes()) =~= icmp_payload(icmp.bytes()));
    }

    let mut ipv4_pdu = Ipv4Pdu::new();
    ipv4_pdu.protocol(IPPROTO_ICMP);
    ipv4_pdu.source_address(ipv4.destination_address());
    ipv4_pdu.destination_address(ipv4.source_address());
    match ipv4_pdu.inner(icmp_pdu.as_bytes()) {
        Ok(_) => {},
        Err(_) => {
            return None;
        },
    }
    ipv4_pdu.compute_checksum();
    proof {
        assert(ipv4_source(ipv4_pdu.bytes()) =~= ipv4_destination(ipv4.bytes()));
        assert(ipv4_destination(ipv4_pdu.bytes()) =~= ipv4_source(ipv4.bytes()));
        crate::ip::lemma_ipv4_round_trip(ipv4_pdu);
        assert(ipv4_csum_input(ipv4_pdu.out_bytes()) =~= ipv4_csum_input(ipv4_pdu.bytes()));
        assert(ipv4_payload(ipv4_pdu.out_bytes()) =~= icmp_pdu.out_bytes());
    }

    let mut ethernet_pdu = EthernetPdu::new(ETHERTYPE_IPV4);
    ethernet_pdu.destination_address(eth.source_address());
    ethernet_pdu.source_address(eth.destination_address());
    match ethernet_pdu.inner(ipv4_pdu.as_bytes()) {
        Ok(_) => {},
        Err(_) => {
            return None;
        },
    }
    proof {
        assert(eth_destination(ethernet_pdu.bytes()) =~= eth_source(eth.bytes()));
        assert(eth_source(ethernet_pdu.bytes()) =~= eth_destination(eth.bytes()));
        crate::ethernet::lemma_ethernet_round_trip(ethernet_pdu);
    }
    let frame = ethernet_pdu.as_bytes();
    proof {
        let plen = icmp_payload(icmp.bytes()).len() as int;
        assert(frame@.subrange(14, 14 + 24 + plen) =~= ipv4_pdu.out_bytes());
        assert(frame@.subrange(14, 14 + 24 + plen).skip(20) =~= icmp_pdu.out_bytes());
    }
    Some(frame)
}

/// What the UDP echo carries: the datagram's declared payload sent back with
/// the ports swapped and a transmitted (never zero) pseudo-header checksum,
/// inside an IPv4 packet with the datagram's addresses swapped and a valid
/// header checksum, inside a frame with the link addresses swapped.
pub open spec fn udp_echo_ok(ein: Seq<u8>, iin: Seq<u8>, uin: Seq<u8>, out: Seq<u8>) -> bool {
    let pay = uin.subrange(8, udp_length(uin) as int);
    let ulen = 8 + pay.len() as int;
    let ip_out = out.subrange(14, 14 + 20 + ulen);
    let udp_out = ip_out.skip(20);
    &&& eth_valid(out)
    &&& eth_fcs_ok(out)
    &&& out.len() <= 1522
    &&& eth_ethertype(out) == ETHERTYPE_IPV4
    &&& eth_destination(out) == eth_source(ein)
    &&& eth_source(out) == eth_destination(ein)
    &&& ipv4_valid(ip_out)
    &&& ipv4_header_len(ip_out) == 20
    &&& ipv4_protocol(ip_out) == IPPROTO_UDP
    &&& ipv4_total_length(ip_out) == 20 + ulen
    &&& ipv4_source(ip_out) == ipv4_destination(iin)
    &&& ipv4_destination(ip_out) == ipv4_source(iin)
    &&& ipv4_checksum(ip_out) == checksum_spec(ipv4_csum_input(ip_out))
    &&& udp_source_port(udp_out) == udp_destination_port(uin)
    &&& udp_destination_port(udp_out) == udp_source_port(uin)
    &&& udp_length(udp_out) == ulen
    &&& udp_out.skip(8) == pay
    &&& udp_checksum(udp_out) == udp_wire_checksum(
        checksum_spec(
            udp_csum_input(ipv4_destination(iin), ipv4_source(iin), IPPROTO_UDP, udp_out),
        ),
    )
}

/// Echoes a UDP datagram back with the ports swapped. A datagram whose
/// declared length is shorter than its header or longer than its buffer,
/// or whose payload would not fit the reply budget, is dropped.
pub fn handle_udp(
    eth: &EthernetParser<'_>,
    ipv4: &Ipv4Parser<'_>,
    udp: &UdpParser<'_>,
) -> (r: Option<Vec<u8>>)
    requires
        eth.wf(),
        ipv4.wf(),
        udp.wf(),
    ensures
        (r is Some) <==> (8 <= udp_length(udp.bytes()) <= udp.bytes().len() && udp_length(
            udp.bytes(),
        ) <= 1480),
        match r {
            Some(f) => udp_echo_ok(eth.bytes(), ipv4.bytes(), udp.bytes(), f@),
            None => true,
        },
{
    let mut udp_pdu = UdpPdu::new();
    udp_pdu.source_port(udp.destination_port());
    udp_pdu.destination_port(udp.source_port());
    match udp.inner() {
        Ok(Udp::Raw(raw_rcvd)) => {
            match udp_pdu.inner(raw_rcvd) {
                Ok(_) => {},
                Err(_) => {
                    return None;
                },
            }
        },
        Err(_) => {
            return None;
        },
    }
    udp_pdu.compute_checksum(
        &IpPseudoHeader::Ipv4(
            Ipv4PseudoHeader {
                source_address: ipv4.destination_address(),
                destination_address: ipv4.source_address(),
                protocol: IPPROTO_UDP,
            },
        ),
    );
    proof {
        assert(udp_pdu.out_bytes().skip(8) =~= udp.bytes().subrange(
            8,
            udp_length(udp.bytes()) as int,
        ));
    }

    let mut ipv4_pdu = Ipv4Pdu::new();
    ipv4_pdu.protocol(IPPROTO_UDP);
    ipv4_pdu.source_address(ipv4.destination_address());
    ipv4_pdu.destination_address(ipv4.source_address());
    match ipv4_pdu.inner(udp_pdu.as_bytes()) {
        Ok(_) => {},
        Err(_) => {
            return None;
        },
    }
    ipv4_pdu.compute_checksum();
    proof {
        assert(ipv4_source(ipv4_pdu.bytes()) =~= ipv4_destination(ipv4.bytes()));
        assert(ipv4_destination(ipv4_pdu.bytes()) =~= ipv4_source(ipv4.bytes()));
        crate::ip::lemma_ipv4_round_trip(ipv4_pdu);
        assert(ipv4_csum_input(ipv4_pdu.out_bytes()) =~= ipv4_csum_input(ipv4_pdu.bytes()));
        assert(ipv4_payload(ipv4_pdu.out_bytes()) =~= udp_pdu.out_bytes());
    }

    let mut ethernet_pdu = EthernetPdu::new(ETHERTYPE_IPV4);
    ethernet_pdu.destination_address(eth.source_address());
    ethernet_pdu.source_address(eth.destination_address());
    match ethernet_pdu.inner(ipv4_pdu.as_bytes()) {
        Ok(_) => {},
        Err(_) => {
            return None;
        },
    }
    proof {
        assert(eth_destination(ethernet_pdu.bytes()) =~= eth_source(eth.bytes()));
        assert(eth_source(ethernet_pdu.bytes()) =~= eth_destination(eth.bytes()));
        crate::ethernet::lemma_ethernet_round_trip(ethernet_pdu);
    }
    let frame = ethernet_pdu.as_bytes();
    proof {
        let ulen = udp_length(udp.bytes()) as int;
        assert(frame@.subrange(14, 14 + 20 + ulen) =~= ipv4_pdu.out_bytes());
        assert(frame@.subrange(14, 14 + 20 + ulen).skip(20) =~= udp_pdu.out_bytes());
    }
    Some(frame)
}


/// The flags byte of every reply segment this server sends: ACK always set,
/// SYN, FIN and PSH as the state machine chooses.
pub open spec fn reply_flags(syn: bool, fin: bool, psh: bool) -> u8 {
    (16 + (if syn {
        2int
    } else {
        0int
    }) + (if fin {
        1int
    } else {
        0int
    }) + (if psh {
        8int
    } else {
        0int
    })) as u8
}

/// What every TCP reply segment carries: ports swapped, the given sequence
/// and acknowledgement numbers, the given flags, a bare 20-byte header, the
/// given body, and a pseudo-header checksum over the reply, inside an IPv4
/// packet with the segment's addresses swapped and a valid header checksum,
/// inside a frame with the link addresses swapped.
pub open spec fn tcp_reply_ok(
    ein: Seq<u8>,
    iin: Seq<u8>,
    tin: Seq<u8>,
    out: Seq<u8>,
    seq: u32,
    ack: u32,
    flags: u8,
    body: Seq<u8>,
) -> bool {
    let tlen = 20 + body.len() as int;
    let ip_out = out.subrange(14, 14 + 20 + tlen);
    let t_out = ip_out.skip(20);
    &&& eth_valid(out)
    &&& eth_fcs_ok(out)
    &&& out.len() <= 1522
    &&& eth_ethertype(out) == ETHERTYPE_IPV4
    &&& eth_destination(out) == eth_source(ein)
    &&& eth_source(out) == eth_destination(ein)
    &&& ipv4_valid(ip_out)
    &&& ipv4_header_len(ip_out) == 20
    &&& ipv4_protocol(ip_out) == IPPROTO_TCP
    &&& ipv4_total_length(ip_out) == 20 + tlen
    &&& ipv4_source(ip_out) == ipv4_destination(iin)
    &&& ipv4_destination(ip_out) == ipv4_source(iin)
    &&& ipv4_checksum(ip_out) == checksum_spec(ipv4_csum_input(ip_out))
    &&& tcp_source_port(t_out) == tcp_destination_port(tin)
    &&& tcp_destination_port(t_out) == tcp_source_port(tin)
    &&& tcp_sequence_number(t_out) == seq
    &&& tcp_acknowledgement_number(t_out) == ack
    &&& tcp_flags(t_out) == flags
    &&& tcp_header_len(t_out) == 20
    &&& tcp_window_size(t_out) == 0xFFFF
    &&& tcp_payload(t_out) == body
    &&& tcp_checksum(t_out) == checksum_spec(
        tcp_csum_input(
            ipv4_destination(iin),
            ipv4_source(iin),
            IPPROTO_TCP,
            (20 + body.len()) as u16,
            t_out,
        ),
    )
}

/// Builds one reply segment back to the peer of the received segment, with
/// the connection's addressing swapped at every layer.
fn send_tcp(
    eth: &EthernetParser<'_>,
    ipv4: &Ipv4Parser<'_>,
    tcp: &TcpParser<'_>,
    seq: u32,
    ack: u32,
    syn: bool,
    fin: bool,
    psh: bool,
    payload: &[u8],
) -> (r: Vec<u8>)
    requires
        eth.wf(),
        ipv4.wf(),
        tcp.wf(),
        payload@.len() <= 1460,
    ensures
        tcp_reply_ok(
            eth.bytes(),
            ipv4.bytes(),
            tcp.bytes(),
            r@,
            seq,
            ack,
            reply_flags(syn, fin, psh),
            payload@,
        ),
{
    let mut tcp_pdu = TcpPdu::new();
    tcp_pdu.source_port(tcp.destination_port());
    tcp_pdu.destination_port(tcp.source_port());
    tcp_pdu.sequence_number(seq);
    tcp_pdu.acknowledgement_number(ack);
    let fl: u8 = 16 + (if syn {
        2
    } else {
        0
    }) + (if fin {
        1
    } else {
        0
    }) + (if psh {
        8
    } else {
        0
    });
    tcp_pdu.flags(fl);
    match tcp_pdu.inner(payload) {
        Ok(_) => {},
        Err(_) => {},
    }
    tcp_pdu.compute_checksum(
        &IpPseudoHeader::Ipv4(
            Ipv4PseudoHeader {
                source_address: ipv4.destination_address(),
                destination_address: ipv4.source_address(),
                protocol: IPPROTO_TCP,
            },
        ),
    );
    proof {
        assert(tcp_payload(tcp_pdu.out_bytes()) =~= payload@);
    }

    let mut ipv4_pdu = Ipv4Pdu::new();
    ipv4_pdu.protocol(IPPROTO_TCP);
    ipv4_pdu.source_address(ipv4.destination_address());
    ipv4_pdu.destination_address(ipv4.source_address());
    match ipv4_pdu.inner(tcp_pdu.as_bytes()) {
        Ok(_) => {},
        Err(_) => {},
    }
    ipv4_pdu.compute_checksum();
    proof {
        assert(ipv4_source(ipv4_pdu.bytes()) =~= ipv4_destination(ipv4.bytes()));
        assert(ipv4_destination(ipv4_pdu.bytes()) =~= ipv4_source(ipv4.bytes()));
        crate::ip::lemma_ipv4_round_trip(ipv4_pdu);
        assert(ipv4_csum_input(ipv4_pdu.out_bytes()) =~= ipv4_csum_input(ipv4_pdu.bytes()));
        assert(ipv4_payload(ipv4_pdu.out_bytes()) =~= tcp_pdu.out_bytes());
    }

    let mut ethernet_pdu = EthernetPdu::new(ETHERTYPE_IPV4);
    ethernet_pdu.destination_address(eth.source_address());
    ethernet_pdu.source_address(eth.destination_address());
    match ethernet_pdu.inner(ipv4_pdu.as_bytes()) {
        Ok(_) => {},
        Err(_) => {},
    }
    proof {
        assert(eth_destination(ethernet_pdu.bytes()) =~= eth_source(eth.bytes()));
        assert(eth_source(ethernet_pdu.bytes()) =~= eth_destination(eth.bytes()));
        crate::ethernet::lemma_ethernet_round_trip(ethernet_pdu);
    }
    let frame = ethernet_pdu.as_bytes();
    proof {
        let tlen = 20 + payload@.len() as int;
        assert(frame@.subrange(14, 14 + 20 + tlen) =~= ipv4_pdu.out_bytes());
        assert(frame@.subrange(14, 14 + 20 + tlen).skip(20) =~= tcp_pdu.out_bytes());
    }
    frame
}

/// The transition table of the single-connection server, driven by the
/// exact flag combination of the inbound segment — a deliberate
/// simplification: a segment with any extra bit set (such as the congestion
/// bits) is ignored. SYN in Listen opens, ACK in SynReceived
/// establishes, PSH+ACK in Established serves, FIN+ACK in Established
/// closes down, ACK in LastAck closes; everything else leaves the state
/// unchanged.
pub open spec fn tcp_next_spec(s: TcpState, flags: u8) -> TcpState {
    match s {
        TcpState::Listen => if flags == TCP_SYN {
            TcpState::SynReceived
        } else {
            s
        },
        TcpState::SynReceived => if flags == TCP_ACK {
            TcpState::Established
        } else {
            s
        },
        TcpState::Established => if flags == TCP_PSH + TCP_ACK {
            TcpState::Established
        } else if flags == TCP_FIN + TCP_ACK {
            TcpState::LastAck
        } else {
            s
        },
        TcpState::LastAck => if flags == TCP_ACK {
            TcpState::Closed
        } else {
            s
        },
        _ => s,
    }
}

/// When the activity indicator changes: on when the connection becomes
/// established, off when it closes.
pub open spec fn tcp_indicator_spec(s: TcpState, flags: u8) -> Option<bool> {
    if s == TcpState::SynReceived && flags == TCP_ACK {
        Some(true)
    } else if s == TcpState::LastAck && flags == TCP_ACK {
        Some(false)
    } else {
        None
    }
}

/// When a reply segment is sent: answering SYN in Listen, and answering
/// PSH+ACK or FIN+ACK in Established.
pub open spec fn tcp_emits_spec(s: TcpState, flags: u8) -> bool {
    ||| (s == TcpState::Listen && flags == TCP_SYN)
    ||| (s == TcpState::Established && (flags == TCP_PSH + TCP_ACK || flags == TCP_FIN + TCP_ACK))
}

/// The peer's payload length as the declared lengths give it: total length
/// minus both headers, and zero where an inconsistent total length would
/// make that negative.
pub open spec fn tcp_data_len_spec(ib: Seq<u8>, tb: Seq<u8>) -> int {
    let d = ipv4_total_length(ib) - ipv4_header_len(ib) - tcp_header_len(tb);
    if d >= 0 {
        d
    } else {
        0
    }
}

/// The body served for a PSH+ACK segment: the configured page when the
/// segment's payload is a GET request, nothing otherwise.
pub open spec fn http_reply_body(page: Seq<u8>, payload: Seq<u8>) -> Seq<u8> {
    if http_is_get(payload) {
        http_response_bytes(page)
    } else {
        Seq::empty()
    }
}

/// The next state, the reply frame (if any) and the indicator change (if
/// any) that one inbound segment draws from the state machine.
pub struct StackResponse {
    pub next_state: TcpState,
    pub frame: Option<Vec<u8>>,
    pub indicator: Option<bool>,
}

/// Drives the connection state machine with one inbound segment: answers
/// SYN with SYN+ACK (fresh sequence number from the generator), serves a
/// GET under PSH+ACK, answers FIN+ACK with FIN+ACK, and tracks the
/// established/closed transitions; any other state/flag combination is
/// ignored.
pub fn handle_tcp(
    cfg: &NodeConfig,
    eth: &EthernetParser<'_>,
    ipv4: &Ipv4Parser<'_>,
    tcp: &TcpParser<'_>,
    state: TcpState,
    rng: &mut Xorshift32,
) -> (r: StackResponse)
    requires
        cfg.wf(),
        eth.wf(),
        ipv4.wf(),
        tcp.wf(),
    ensures
        r.next_state == tcp_next_spec(state, tcp_flags(tcp.bytes())),
        r.indicator == tcp_indicator_spec(state, tcp_flags(tcp.bytes())),
        (r.frame is Some) <==> tcp_emits_spec(state, tcp_flags(tcp.bytes())),
        state == TcpState::Listen && tcp_flags(tcp.bytes()) == TCP_SYN ==> final(rng).spec_state()
            == xorshift_step(old(rng).spec_state()) && (match r.frame {
            Some(f) => tcp_reply_ok(
                eth.bytes(),
                ipv4.bytes(),
                tcp.bytes(),
                f@,
                xorshift_step(old(rng).spec_state()),
                wrap_add32(tcp_sequence_number(tcp.bytes()), 1),
                reply_flags(true, false, false),
                Seq::empty(),
            ),
            None => false,
        }),
        !(state == TcpState::Listen && tcp_flags(tcp.bytes()) == TCP_SYN)
            ==> final(rng).spec_state() == old(rng).spec_state(),
        state == TcpState::Established && tcp_flags(tcp.bytes()) == TCP_PSH + TCP_ACK ==> (
        match r.frame {
            Some(f) => tcp_reply_ok(
                eth.bytes(),
                ipv4.bytes(),
                tcp.bytes(),
                f@,
                tcp_acknowledgement_number(tcp.bytes()),
                wrap_add32(
                    tcp_sequence_number(tcp.bytes()),
                    tcp_data_len_spec(ipv4.bytes(), tcp.bytes()) as u32,
                ),
                reply_flags(false, false, http_is_get(tcp_payload(tcp.bytes()))),
                http_reply_body(cfg.page@, tcp_payload(tcp.bytes())),
            ),
            None => false,
        }),
        state == TcpState::Established && tcp_flags(tcp.bytes()) == TCP_FIN + TCP_ACK ==> (
        match r.frame {
            Some(f) => tcp_reply_ok(
                eth.bytes(),
                ipv4.bytes(),
                tcp.bytes(),
                f@,
                tcp_acknowledgement_number(tcp.bytes()),
                wrap_add32(tcp_sequence_number(tcp.bytes()), 1),
                reply_flags(false, true, false),
                Seq::empty(),
            ),
            None => false,
        }),
{
    let flags = tcp.flags();
    match state {
        TcpState::Listen => {
            if flags == TCP_SYN {
                let isn = rng.gen();
                let ack = add_wrap32(tcp.sequence_number(), 1);
                let empty: Vec<u8> = Vec::new();
                let frame = send_tcp(eth, ipv4, tcp, isn, ack, true, false, false, empty.as_slice());
                StackResponse {
                    next_state: TcpState::SynReceived,
                    frame: Some(frame),
                    indicator: None,
                }
            } else {
                StackResponse { next_state: state, frame: None, indicator: None }
            }
        },
        TcpState::SynReceived => {
            if flags == TCP_ACK {
                StackResponse {
                    next_state: TcpState::Established,
                    frame: None,
                    indicator: Some(true),
                }
            } else {
                StackResponse { next_state: state, frame: None, indicator: None }
            }
        },
        TcpState::Established => {
            if flags == TCP_PSH + TCP_ACK {
                let seq = tcp.acknowledgement_number();
                let total = ipv4.total_length();
                let ihl = ipv4.computed_ihl() as u16;
                let doff = tcp.computed_data_offset() as u16;
                let rem = total - ihl;
                let data_length: u16 = if rem >= doff {
                    rem - doff
                } else {
                    0
                };
                let ack = add_wrap32(tcp.sequence_number(), data_length as u32);
                let mut serve_page = false;
                match tcp.inner() {
                    Ok(Tcp::Raw(raw_rcvd)) => {
                        match HttpParser::parse(raw_rcvd) {
                            Ok(http_rcvd) => {
                                if http_rcvd.method_is_get() {
                                    serve_page = true;
                                }
                            },
                            Err(_) => {},
                        }
                    },
                    Err(_) => {},
                }
                if serve_page {
                    let mut http_pdu = HttpPdu::new();
                    proof {
                        lemma_digits_small(cfg.page@.len() as nat);
                    }
                    match http_pdu.inner(cfg.page.as_slice()) {
                        Ok(_) => {},
                        Err(_) => {},
                    }
                    let frame = send_tcp(
                        eth,
                        ipv4,
                        tcp,
                        seq,
                        ack,
                        false,
                        false,
                        true,
                        http_pdu.as_bytes(),
                    );
                    StackResponse {
                        next_state: TcpState::Established,
                        frame: Some(frame),
                        indicator: None,
                    }
                } else {
                    let empty: Vec<u8> = Vec::new();
                    let frame = send_tcp(
                        eth,
                        ipv4,
                        tcp,
                        seq,
                        ack,
                        false,
                        false,
                        false,
                        empty.as_slice(),
                    );
                    StackResponse {
                        next_state: TcpState::Established,
                        frame: Some(frame),
                        indicator: None,
                    }
                }
            } else if flags == TCP_FIN + TCP_ACK {
                let seq = tcp.acknowledgement_number();
                let ack = add_wrap32(tcp.sequence_number(), 1);
                let empty: Vec<u8> = Vec::new();
                let frame = send_tcp(eth, ipv4, tcp, seq, ack, false, true, false, empty.as_slice());
                StackResponse { next_state: TcpState::LastAck, frame: Some(frame), indicator: None }
            } else {
                StackResponse { next_state: state, frame: None, indicator: None }
            }
        },
        TcpState::LastAck => {
            if flags == TCP_ACK {
                StackResponse { next_state: TcpState::Closed, frame: None, indicator: Some(false) }
            } else {
                StackResponse { next_state: state, frame: None, indicator: None }
            }
        },
        _ => StackResponse { next_state: state, frame: None, indicator: None },
    }
}


/// The frame is a whole ARP request for the node's address.
pub open spec fn frame_arp_request(node_ip: Seq<u8>, f: Seq<u8>) -> bool {
    &&& eth_valid(f)
    &&& eth_ethertype(f) == ETHERTYPE_ARP
    &&& arp_valid(eth_payload(f))
    &&& arp_opcode(eth_payload(f)) == ARP_OP_REQUEST
    &&& arp_target_protocol(eth_payload(f)) == node_ip
}

/// The frame carries a whole (non-fragment) IPv4 packet.
pub open spec fn frame_ipv4_whole(f: Seq<u8>) -> bool {
    &&& eth_valid(f)
    &&& eth_ethertype(f) == ETHERTYPE_IPV4
    &&& ipv4_valid(eth_payload(f))
    &&& ipv4_fragment_offset(eth_payload(f)) == 0
}

/// The frame carries a whole ICMP message.
pub open spec fn frame_icmp(f: Seq<u8>) -> bool {
    &&& frame_ipv4_whole(f)
    &&& ipv4_protocol(eth_payload(f)) == IPPROTO_ICMP
    &&& icmp_valid(ipv4_payload(eth_payload(f)))
}

/// The frame carries a whole UDP datagram.
pub open spec fn frame_udp(f: Seq<u8>) -> bool {
    &&& frame_ipv4_whole(f)
    &&& ipv4_protocol(eth_payload(f)) == IPPROTO_UDP
    &&& udp_valid(ipv4_payload(eth_payload(f)))
}

/// The frame carries a whole TCP segment.
pub open spec fn frame_tcp(f: Seq<u8>) -> bool {
    &&& frame_ipv4_whole(f)
    &&& ipv4_protocol(eth_payload(f)) == IPPROTO_TCP
    &&& tcp_valid(ipv4_payload(eth_payload(f)))
}

/// The state the machine holds when processing begins: a closed connection
/// reopens to listening before each new frame.
pub open spec fn reopened(s: TcpState) -> TcpState {
    if s == TcpState::Closed {
        TcpState::Listen
    } else {
        s
    }
}

/// When one inbound frame draws an outbound frame: an ARP request for this
/// node, an ICMP echo request that fits the reply, any UDP datagram with a
/// consistent declared length that fits the reply, or a TCP segment the
/// state machine answers.
pub open spec fn stack_emits(node_ip: Seq<u8>, st0: TcpState, f: Seq<u8>) -> bool {
    if frame_arp_request(node_ip, f) {
        true
    } else if frame_icmp(f) {
        let seg = ipv4_payload(eth_payload(f));
        icmp_type(seg) == ICMP_ECHO_REQUEST && icmp_payload(seg).len() <= 1476
    } else if frame_udp(f) {
        let seg = ipv4_payload(eth_payload(f));
        8 <= udp_length(seg) <= seg.len() && udp_length(seg) <= 1480
    } else if frame_tcp(f) {
        tcp_emits_spec(st0, tcp_flags(ipv4_payload(eth_payload(f))))
    } else {
        false
    }
}

/// Processes one inbound frame completely: parses it, reacts per protocol,
/// and returns the next connection state, at most one outbound frame, and
/// any activity-indicator change. A frame that fails to parse at any layer
/// is discarded without effect; a closed connection reopens to listening
/// before processing.
pub fn handle_frame(
    cfg: &NodeConfig,
    state: TcpState,
    rng: &mut Xorshift32,
    frame: &[u8],
) -> (r: StackResponse)
    requires
        cfg.wf(),
    ensures
        ({
            let st0 = reopened(state);
            let ep = eth_payload(frame@);
            let seg = ipv4_payload(ep);
            &&& r.next_state == (if frame_tcp(frame@) {
                tcp_next_spec(st0, tcp_flags(seg))
            } else {
                st0
            })
            &&& r.indicator == (if frame_tcp(frame@) {
                tcp_indicator_spec(st0, tcp_flags(seg))
            } else {
                None::<bool>
            })
            &&& ((r.frame is Some) <==> stack_emits(cfg.ip@, st0, frame@))
            &&& (frame_arp_request(cfg.ip@, frame@) ==> match r.frame {
                Some(o) => arp_reply_ok(cfg.mac@, cfg.ip@, frame@, ep, o@),
                None => false,
            })
            &&& (frame_icmp(frame@) && icmp_type(seg) == ICMP_ECHO_REQUEST && icmp_payload(
                seg,
            ).len() <= 1476 ==> match r.frame {
                Some(o) => icmp_echo_reply_ok(frame@, ep, seg, o@),
                None => false,
            })
            &&& (frame_udp(frame@) && 8 <= udp_length(seg) <= seg.len() && udp_length(seg) <= 1480
                ==> match r.frame {
                Some(o) => udp_echo_ok(frame@, ep, seg, o@),
                None => false,
            })
            &&& (frame_tcp(frame@) && st0 == TcpState::Listen && tcp_flags(seg) == TCP_SYN
                ==> final(rng).spec_state() == xorshift_step(old(rng).spec_state()) && (
            match r.frame {
                Some(o) => tcp_reply_ok(
                    frame@,
                    ep,
                    seg,
                    o@,
                    xorshift_step(old(rng).spec_state()),
                    wrap_add32(tcp_sequence_number(seg), 1),
                    reply_flags(true, false, false),
                    Seq::empty(),
                ),
                None => false,
            }))
            &&& (!(frame_tcp(frame@) && st0 == TcpState::Listen && tcp_flags(seg) == TCP_SYN)
                ==> final(rng).spec_state() == old(rng).spec_state())
            &&& (frame_tcp(frame@) && st0 == TcpState::Established && tcp_flags(seg) == TCP_PSH
                + TCP_ACK ==> match r.frame {
                Some(o) => tcp_reply_ok(
                    frame@,
                    ep,
                    seg,
                    o@,
                    tcp_acknowledgement_number(seg),
                    wrap_add32(tcp_sequence_number(seg), tcp_data_len_spec(ep, seg) as u32),
                    reply_flags(false, false, http_is_get(tcp_payload(seg))),
                    http_reply_body(cfg.page@, tcp_payload(seg)),
                ),
                None => false,
            })
            &&& (frame_tcp(frame@) && st0 == TcpState::Established && tcp_flags(seg) == TCP_FIN
                + TCP_ACK ==> match r.frame {
                Some(o) => tcp_reply_ok(
                    frame@,
                    ep,
                    seg,
                    o@,
                    tcp_acknowledgement_number(seg),
                    wrap_add32(tcp_sequence_number(seg), 1),
                    reply_flags(false, true, false),
                    Seq::empty(),
                ),
                None => false,
            })
        }),
{
    let tcp_state = match state {
        TcpState::Closed => TcpState::Listen,
        _ => state,
    };
    match EthernetParser::parse(frame) {
        Ok(ethernet_rcvd) => match ethernet_rcvd.inner() {
            Ok(Ethernet::Arp(arp_rcvd)) => {
                let reply = handle_arp(cfg, &ethernet_rcvd, &arp_rcvd);
                StackResponse { next_state: tcp_state, frame: reply, indicator: None }
            },
            Ok(Ethernet::Ipv4(ipv4_rcvd)) => match ipv4_rcvd.inner() {
                Ok(Ipv4::Icmp(icmp_rcvd)) => {
                    let reply = handle_icmp(&ethernet_rcvd, &ipv4_rcvd, &icmp_rcvd);
                    StackResponse { next_state: tcp_state, frame: reply, indicator: None }
                },
                Ok(Ipv4::Udp(udp_rcvd)) => {
                    let reply = handle_udp(&ethernet_rcvd, &ipv4_rcvd, &udp_rcvd);
                    StackResponse { next_state: tcp_state, frame: reply, indicator: None }
                },
                Ok(Ipv4::Tcp(tcp_rcvd)) => handle_tcp(
                    cfg,
                    &ethernet_rcvd,
                    &ipv4_rcvd,
                    &tcp_rcvd,
                    tcp_state,
                    rng,
                ),
                _ => StackResponse { next_state: tcp_state, frame: None, indicator: None },
            },
            _ => StackResponse { next_state: tcp_state, frame: None, indicator: None },
        },
        Err(_) => StackResponse { next_state: tcp_state, frame: None, indicator: None },
    }
}


} // verus!
