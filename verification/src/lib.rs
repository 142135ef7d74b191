//! A minimal network-protocol stack for a single embedded node: zero-copy
//! codecs for Ethernet, ARP, IPv4, TCP, UDP and ICMP, a trivial HTTP framer,
//! and the control logic that impersonates one IPv4 host — answering ARP
//! requests, ICMP echo requests, UDP echo, and serving one static page over a
//! hand-rolled single-connection TCP server.

use vstd::prelude::*;

pub mod arp;
pub mod ethernet;
pub mod http;
pub mod icmp;
pub mod ip;
pub mod stack;
pub mod tcp;
pub mod udp;
pub mod util;
pub mod wire;

pub use arp::{ArpParser, ArpPdu, ARP_OP_REPLY, ARP_OP_REQUEST};
pub use ethernet::{
    Ethernet, EthernetParser, EthernetPdu, ETHERTYPE_ARP, ETHERTYPE_DOT1Q, ETHERTYPE_IPV4,
};
pub use http::{Http, HttpParser, HttpPdu};
pub use icmp::{Icmp, IcmpParser, IcmpPdu, ICMP_ECHO_REPLY, ICMP_ECHO_REQUEST};
pub use ip::{
    Ip, IpPseudoHeader, Ipv4, Ipv4Option, Ipv4OptionIterator, Ipv4Parser, Ipv4Pdu,
    Ipv4PseudoHeader, IPPROTO_ICMP, IPPROTO_TCP, IPPROTO_UDP,
};
pub use tcp::{
    Tcp, TcpOption, TcpOptionIterator, TcpParser, TcpPdu, TcpState, TCP_ACK, TCP_CWR, TCP_ECN,
    TCP_FIN, TCP_PSH, TCP_RST, TCP_SYN, TCP_URG,
};
pub use stack::{handle_arp, handle_frame, handle_icmp, handle_tcp, handle_udp, NodeConfig, StackResponse};
pub use udp::{Udp, UdpParser, UdpPdu};
pub use util::checksum;
pub use util::checksum_spec;
pub use util::crc32;
pub use util::crc32_spec;
pub use util::word_sum;
pub use util::Xorshift32;

verus! {

/// Parse and build failures, used uniformly by every codec.
#[derive(Debug, Copy, Clone, Eq, PartialEq, Structural)]
pub enum Error {
    /// Buffer shorter than the minimum or declared structural length.
    Truncated,
    /// Payload or options exceed the layer's maximum capacity on build.
    Oversized,
    /// Structurally present but internally inconsistent.
    Malformed,
}

pub type PduResult<T> = Result<T, Error>;

} // verus!
