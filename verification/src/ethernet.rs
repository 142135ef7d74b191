//! Ethernet codec: 14-byte link headers, or 18-byte with an 802.1Q tag,
//! with minimum-frame padding and a trailing CRC-32 frame check sequence on
//! build, and ethertype-based classification of the payload on parse.

use vstd::prelude::*;

use vstd::slice::slice_subrange;
use vstd::slice::slice_to_vec;

use crate::arp::arp_parse_error;
use crate::arp::arp_valid;
use crate::arp::ArpParser;
use crate::ip::ipv4_parse_error;
use crate::ip::ipv4_valid;
use crate::ip::Ipv4Parser;
use crate::util::crc32;
use crate::util::crc32_spec;
use crate::wire::be16_at;
use crate::wire::read_be16;
use crate::wire::unchanged_outside;
use crate::wire::u32_be_bytes;
use crate::wire::write_be16;
use crate::wire::write_be32;
use crate::wire::write_bytes;
use crate::{Error, PduResult};

verus! {

pub const ETHERTYPE_DOT1Q: u16 = 0x8100;

pub const ETHERTYPE_ARP: u16 = 0x0806;

pub const ETHERTYPE_IPV4: u16 = 0x0800;

/// Destination address (offsets 0..6).
pub open spec fn eth_destination(b: Seq<u8>) -> Seq<u8> {
    b.subrange(0, 6)
}

/// Source address (offsets 6..12).
pub open spec fn eth_source(b: Seq<u8>) -> Seq<u8> {
    b.subrange(6, 12)
}

/// The 16-bit field right after the addresses: the tag protocol identifier
/// when the frame carries an 802.1Q tag, the ethertype otherwise.
pub open spec fn eth_tpid(b: Seq<u8>) -> u16 {
    be16_at(b, 12)
}

/// Whether the frame carries an 802.1Q tag.
pub open spec fn eth_tagged(b: Seq<u8>) -> bool {
    eth_tpid(b) == ETHERTYPE_DOT1Q
}

/// Header length: 18 bytes with an 802.1Q tag, 14 without.
pub open spec fn eth_header_len(b: Seq<u8>) -> int {
    if eth_tagged(b) {
        18
    } else {
        14
    }
}

/// The real ethertype: moved 4 bytes later when a tag is present.
pub open spec fn eth_ethertype(b: Seq<u8>) -> u16 {
    if eth_tagged(b) {
        be16_at(b, 16)
    } else {
        be16_at(b, 12)
    }
}

/// The 12-bit VLAN id of a tagged frame.
pub open spec fn eth_vlan(b: Seq<u8>) -> u16 {
    be16_at(b, 14) & 0x0FFF
}

/// The 3-bit priority of a tagged frame.
pub open spec fn eth_vlan_pcp(b: Seq<u8>) -> u8 {
    (b[14] & 0xE0) >> 5
}

/// The drop-eligible bit of a tagged frame.
pub open spec fn eth_vlan_dei(b: Seq<u8>) -> bool {
    (b[14] & 0x10) >> 4 > 0
}

/// Everything after the link header.
pub open spec fn eth_payload(b: Seq<u8>) -> Seq<u8> {
    b.skip(eth_header_len(b))
}

/// The buffer is too short for its own shape: under the plain header, or
/// under the tagged header while the tag identifier is present.
pub open spec fn eth_truncated(b: Seq<u8>) -> bool {
    b.len() < 14 || (eth_tagged(b) && b.len() < 18)
}

/// A buffer parses as Ethernet when it holds its whole header and its
/// ethertype is a real ethertype, not a legacy 802.3 length (under 0x600).
pub open spec fn eth_valid(b: Seq<u8>) -> bool {
    &&& b.len() >= 14
    &&& (eth_tagged(b) ==> b.len() >= 18)
    &&& eth_ethertype(b) >= 0x600
}

/// The frame ends with a correct frame check sequence: its last four bytes
/// are the big-endian CRC-32 of everything before them.
pub open spec fn eth_fcs_ok(out: Seq<u8>) -> bool {
    &&& out.len() >= 4
    &&& out.subrange(out.len() - 4, out.len() as int) == u32_be_bytes(
        crc32_spec(out.take(out.len() - 4)),
    )
}

/// The error a failing Ethernet parse reports: short buffers are
/// `Truncated`, a legacy length-field ethertype is `Malformed`.
pub open spec fn eth_parse_error(b: Seq<u8>) -> Error {
    if eth_truncated(b) {
        Error::Truncated
    } else {
        Error::Malformed
    }
}

/// Builder for one outbound Ethernet frame.
pub struct EthernetPdu {
    buffer: Vec<u8>,
    inner_size: usize,
}

impl EthernetPdu {
    /// The full fixed-capacity scratch buffer.
    pub closed spec fn bytes(&self) -> Seq<u8> {
        self.buffer@
    }

    /// Length of the payload currently attached.
    pub closed spec fn payload_len(&self) -> int {
        self.inner_size as int
    }

    pub open spec fn wf(&self) -> bool {
        &&& self.bytes().len() == 1522
        &&& 0 <= self.payload_len() <= 1500
    }

    /// The payload length padded up to the 46-byte minimum frame body.
    pub open spec fn padded_len(&self) -> int {
        if self.payload_len() < 46 {
            46
        } else {
            self.payload_len()
        }
    }

    /// Header plus padded body: where the frame check sequence starts.
    pub open spec fn content_len(&self) -> int {
        eth_header_len(self.bytes()) + self.padded_len()
    }

    /// The frame `as_bytes` returns: header, padded body, and the CRC-32
    /// frame check sequence over everything before it.
    pub open spec fn out_bytes(&self) -> Seq<u8> {
        self.bytes().take(self.content_len()) + u32_be_bytes(
            crc32_spec(self.bytes().take(self.content_len())),
        )
    }

    /// A fresh frame for a given ethertype: the field after the addresses
    /// holds the ethertype (which makes it the tag identifier when the
    /// ethertype is the 802.1Q one); everything else zero.
    pub fn new(ethertype: u16) -> (r: EthernetPdu)
        ensures
            r.wf(),
            r.payload_len() == 0,
            eth_tpid(r.bytes()) == ethertype,
            forall|k: int| 0 <= k < 12 ==> r.bytes()[k] == 0,
            forall|k: int| 14 <= k < 1522 ==> r.bytes()[k] == 0,
    {
        let mut ethernet_pdu = EthernetPdu { buffer: vec![0u8; 1522], inner_size: 0 };
        if ethertype == ETHERTYPE_DOT1Q {
            ethernet_pdu.tpid(ethertype);
        } else {
            ethernet_pdu.ethertype(ethertype);
        }
        ethernet_pdu
    }

    /// Pads the body to the 46-byte minimum, appends the CRC-32 frame check
    /// sequence over everything before it, and returns the finished frame.
    pub fn as_bytes(&mut self) -> (r: Vec<u8>)
        requires
            old(self).wf(),
        ensures
            final(self).wf(),
            final(self).payload_len() == old(self).payload_len(),
            r@ == old(self).out_bytes(),
            r@.len() == eth_header_len(old(self).bytes()) + old(self).padded_len() + 4,
            r@.len() <= 1522,
            unchanged_outside(
                old(self).bytes(),
                final(self).bytes(),
                old(self).content_len(),
                old(self).content_len() + 4,
            ),
    {
        let inner_size = if self.inner_size < 46 {
            46
        } else {
            self.inner_size
        };
        let len = inner_size + self.computed_ihl();
        let crc = crc32(slice_subrange(self.buffer.as_slice(), 0, len));
        write_be32(&mut self.buffer, len, crc);
        let r = slice_to_vec(slice_subrange(self.buffer.as_slice(), 0, len + 4));
        proof {
            assert(r@ =~= old(self).out_bytes());
        }
        r
    }

    /// The current header length, read back from the tag field.
    fn computed_ihl(&self) -> (r: usize)
        requires
            self.wf(),
        ensures
            r == eth_header_len(self.bytes()),
    {
        if read_be16(self.buffer.as_slice(), 12) == ETHERTYPE_DOT1Q {
            18
        } else {
            14
        }
    }

    pub fn destination_address(&mut self, value: [u8; 6])
        requires
            old(self).wf(),
        ensures
            unchanged_outside(old(self).bytes(), final(self).bytes(), 0, 6),
            eth_destination(final(self).bytes()) == value@,
            final(self).payload_len() == old(self).payload_len(),
            final(self).wf(),
    {
        write_bytes(&mut self.buffer, 0, value.as_slice());
    }

    pub fn source_address(&mut self, value: [u8; 6])
        requires
            old(self).wf(),
        ensures
            unchanged_outside(old(self).bytes(), final(self).bytes(), 6, 12),
            eth_source(final(self).bytes()) == value@,
            final(self).payload_len() == old(self).payload_len(),
            final(self).wf(),
    {
        write_bytes(&mut self.buffer, 6, value.as_slice());
    }

    /// Writes the tag protocol identifier field directly.
    pub fn tpid(&mut self, value: u16)
        requires
            old(self).wf(),
        ensures
            unchanged_outside(old(self).bytes(), final(self).bytes(), 12, 14),
            eth_tpid(final(self).bytes()) == value,
            final(self).payload_len() == old(self).payload_len(),
            final(self).wf(),
    {
        write_be16(&mut self.buffer, 12, value);
    }

    /// Writes the real ethertype: after the tag when the frame is tagged,
    /// right after the addresses otherwise.
    pub fn ethertype(&mut self, value: u16)
        requires
            old(self).wf(),
        ensures
            final(self).payload_len() == old(self).payload_len(),
            final(self).wf(),
            eth_tagged(old(self).bytes()) ==> unchanged_outside(
                old(self).bytes(),
                final(self).bytes(),
                16,
                18,
            ) && be16_at(final(self).bytes(), 16) == value,
            !eth_tagged(old(self).bytes()) ==> unchanged_outside(
                old(self).bytes(),
                final(self).bytes(),
                12,
                14,
            ) && be16_at(final(self).bytes(), 12) == value,
    {
        if read_be16(self.buffer.as_slice(), 12) == ETHERTYPE_DOT1Q {
            write_be16(&mut self.buffer, 16, value);
        } else {
            write_be16(&mut self.buffer, 12, value);
        }
    }

    /// Writes the 12-bit VLAN id of a tagged frame, preserving priority and
    /// drop-eligibility; does nothing on an untagged frame.
    pub fn vlan(&mut self, value: u16)
        requires
            old(self).wf(),
        ensures
            final(self).payload_len() == old(self).payload_len(),
            final(self).wf(),
            !eth_tagged(old(self).bytes()) ==> *final(self) == *old(self),
            eth_tagged(old(self).bytes()) ==> unchanged_outside(
                old(self).bytes(),
                final(self).bytes(),
                14,
                16,
            ) && be16_at(final(self).bytes(), 14) == (be16_at(old(self).bytes(), 14) & 0xF000) | (
            value & 0x0FFF),
    {
        if read_be16(self.buffer.as_slice(), 12) == ETHERTYPE_DOT1Q {
            let vlan = read_be16(self.buffer.as_slice(), 14) & 0xF000 | value & 0x0FFF;
            write_be16(&mut self.buffer, 14, vlan);
        }
    }

    /// Writes the 3-bit priority of a tagged frame; does nothing on an
    /// untagged frame.
    pub fn vlan_pcp(&mut self, value: u8)
        requires
            old(self).wf(),
        ensures
            final(self).payload_len() == old(self).payload_len(),
            final(self).wf(),
            !eth_tagged(old(self).bytes()) ==> *final(self) == *old(self),
            eth_tagged(old(self).bytes()) ==> unchanged_outside(
                old(self).bytes(),
                final(self).bytes(),
                14,
                15,
            ) && final(self).bytes()[14] == (old(self).bytes()[14] & 0x1F | value << 5),
    {
        if read_be16(self.buffer.as_slice(), 12) == ETHERTYPE_DOT1Q {
            let vlan_pcp = self.buffer[14] & 0x1F | value << 5;
            self.buffer.set(14, vlan_pcp);
        }
    }

    /// Writes the drop-eligible bit of a tagged frame; does nothing on an
    /// untagged frame.
    pub fn vlan_dei(&mut self, value: bool)
        requires
            old(self).wf(),
        ensures
            final(self).payload_len() == old(self).payload_len(),
            final(self).wf(),
            !eth_tagged(old(self).bytes()) ==> *final(self) == *old(self),
            eth_tagged(old(self).bytes()) ==> unchanged_outside(
                old(self).bytes(),
                final(self).bytes(),
                14,
                15,
            ) && final(self).bytes()[14] == (if value {
                old(self).bytes()[14] | 0x10
            } else {
                old(self).bytes()[14] & 0xEF
            }),
    {
        if read_be16(self.buffer.as_slice(), 12) == ETHERTYPE_DOT1Q {
            let vlan_dei = if value {
                self.buffer[14] | 0x10
            } else {
                self.buffer[14] & 0xEF
            };
            self.buffer.set(14, vlan_dei);
        }
    }

    /// Writes the frame check sequence right after the padded body.
    pub fn fcs(&mut self, value: u32)
        requires
            old(self).wf(),
        ensures
            final(self).payload_len() == old(self).payload_len(),
            final(self).wf(),
            unchanged_outside(
                old(self).bytes(),
                final(self).bytes(),
                old(self).content_len(),
                old(self).content_len() + 4,
            ),
            final(self).bytes().subrange(
                old(self).content_len(),
                old(self).content_len() + 4,
            ) == u32_be_bytes(value),
    {
        let inner_size = if self.inner_size < 46 {
            46
        } else {
            self.inner_size
        };
        let len = self.computed_ihl() + inner_size;
        write_be32(&mut self.buffer, len, value);
    }

    /// Attaches the payload after the link header; fails with `Oversized`
    /// (leaving the frame unchanged) when it exceeds the 1500-byte budget.
    pub fn inner(&mut self, value: &[u8]) -> (r: PduResult<()>)
        requires
            old(self).wf(),
        ensures
            final(self).wf(),
            value@.len() > 1500 ==> r == PduResult::<()>::Err(Error::Oversized) && *final(self)
                == *old(self),
            value@.len() <= 1500 ==> {
                &&& r == PduResult::<()>::Ok(())
                &&& final(self).payload_len() == value@.len()
                &&& final(self).bytes().subrange(
                    eth_header_len(old(self).bytes()),
                    eth_header_len(old(self).bytes()) + value@.len(),
                ) == value@
                &&& forall|k: int|
                    0 <= k < 1522 && !(eth_header_len(old(self).bytes()) <= k < eth_header_len(
                        old(self).bytes(),
                    ) + value@.len()) ==> final(self).bytes()[k] == old(self).bytes()[k]
            },
    {
        let len = value.len();
        if len > 1500 {
            return Err(Error::Oversized);
        }
        self.inner_size = len;
        let ihl = self.computed_ihl();
        write_bytes(&mut self.buffer, ihl, value);
        Ok(())
    }
}

/// Payload of a parsed Ethernet frame: classified by ethertype when this
/// stack speaks it (ARP, IPv4), raw otherwise.
#[derive(Debug, Clone, Copy)]
pub enum Ethernet<'a> {
    Arp(ArpParser<'a>),
    Ipv4(Ipv4Parser<'a>),
    Raw(&'a [u8]),
}

/// What `into_inner` returns for a valid frame: a nested parser for ARP and
/// IPv4 payloads, the raw payload slice for any other ethertype, and the
/// nested parse error where the nested layer rejects its slice.
pub open spec fn eth_inner_ensures<'a>(b: Seq<u8>, r: PduResult<Ethernet<'a>>) -> bool {
    let pay = eth_payload(b);
    if eth_ethertype(b) == ETHERTYPE_ARP {
        match r {
            Ok(i) => arp_valid(pay) && match i {
                Ethernet::Arp(p) => p.bytes() == pay,
                _ => false,
            },
            Err(e) => !arp_valid(pay) && e == arp_parse_error(pay),
        }
    } else if eth_ethertype(b) == ETHERTYPE_IPV4 {
        match r {
            Ok(i) => ipv4_valid(pay) && match i {
                Ethernet::Ipv4(p) => p.bytes() == pay,
                _ => false,
            },
            Err(e) => !ipv4_valid(pay) && e == ipv4_parse_error(pay),
        }
    } else {
        match r {
            Ok(i) => match i {
                Ethernet::Raw(s) => s@ == pay,
                _ => false,
            },
            Err(_) => false,
        }
    }
}

/// Validating view over a received Ethernet frame.
#[derive(Debug, Clone, Copy)]
pub struct EthernetParser<'a> {
    buffer: &'a [u8],
}

impl<'a> EthernetParser<'a> {
    /// The underlying received bytes.
    pub closed spec fn bytes(&self) -> Seq<u8> {
        self.buffer@
    }

    pub open spec fn wf(&self) -> bool {
        eth_valid(self.bytes())
    }

    /// Accepts exactly the buffers `eth_valid` describes and reports
    /// `eth_parse_error` on the rest.
    pub fn parse(buffer: &'a [u8]) -> (r: PduResult<EthernetParser<'a>>)
        ensures
            match r {
                Ok(p) => eth_valid(buffer@) && p.bytes() == buffer@ && p.wf(),
                Err(e) => !eth_valid(buffer@) && e == eth_parse_error(buffer@),
            },
    {
        if buffer.len() < 14 {
            return Err(Error::Truncated);
        }
        let pdu = EthernetParser { buffer };
        if pdu.tpid() == ETHERTYPE_DOT1Q && buffer.len() < 18 {
            return Err(Error::Truncated);
        }
        if pdu.ethertype() < 0x0600 {
            // 802.3 (LLC) frames are not supported
            return Err(Error::Malformed);
        }
        Ok(pdu)
    }

    /// The payload, classified by ethertype.
    pub fn inner(&self) -> (r: PduResult<Ethernet<'a>>)
        requires
            self.wf(),
        ensures
            eth_inner_ensures(self.bytes(), r),
    {
        self.clone().into_inner()
    }

    /// The payload, classified by ethertype.
    pub fn into_inner(self) -> (r: PduResult<Ethernet<'a>>)
        requires
            self.wf(),
        ensures
            eth_inner_ensures(self.bytes(), r),
    {
        let ihl = self.computed_ihl();
        let rest = slice_subrange(self.buffer, ihl, self.buffer.len());
        proof {
            assert(rest@ =~= eth_payload(self.bytes()));
        }
        let ethertype = self.ethertype();
        if ethertype == ETHERTYPE_ARP {
            match ArpParser::parse(rest) {
                Ok(p) => Ok(Ethernet::Arp(p)),
                Err(e) => Err(e),
            }
        } else if ethertype == ETHERTYPE_IPV4 {
            match Ipv4Parser::parse(rest) {
                Ok(p) => Ok(Ethernet::Ipv4(p)),
                Err(e) => Err(e),
            }
        } else {
            Ok(Ethernet::Raw(rest))
        }
    }

    /// The header length of this frame: 18 when tagged, 14 otherwise.
    pub fn computed_ihl(&self) -> (r: usize)
        requires
            self.bytes().len() >= 14,
            eth_tagged(self.bytes()) ==> self.bytes().len() >= 18,
        ensures
            r == eth_header_len(self.bytes()),
    {
        if self.tpid() == ETHERTYPE_DOT1Q {
            18
        } else {
            14
        }
    }

    pub fn destination_address(&self) -> (r: [u8; 6])
        requires
            self.bytes().len() >= 14,
        ensures
            r@ == eth_destination(self.bytes()),
    {
        let b = self.buffer;
        let r = [b[0], b[1], b[2], b[3], b[4], b[5]];
        proof {
            assert(r@ =~= eth_destination(self.bytes()));
        }
        r
    }

    pub fn source_address(&self) -> (r: [u8; 6])
        requires
            self.bytes().len() >= 14,
        ensures
            r@ == eth_source(self.bytes()),
    {
        let b = self.buffer;
        let r = [b[6], b[7], b[8], b[9], b[10], b[11]];
        proof {
            assert(r@ =~= eth_source(self.bytes()));
        }
        r
    }

    pub fn tpid(&self) -> (r: u16)
        requires
            self.bytes().len() >= 14,
        ensures
            r == eth_tpid(self.bytes()),
    {
        read_be16(self.buffer, 12)
    }

    pub fn ethertype(&self) -> (r: u16)
        requires
            self.bytes().len() >= 14,
            eth_tagged(self.bytes()) ==> self.bytes().len() >= 18,
        ensures
            r == eth_ethertype(self.bytes()),
    {
        let tpid = self.tpid();
        if tpid == ETHERTYPE_DOT1Q {
            read_be16(self.buffer, 16)
        } else {
            tpid
        }
    }

    /// The VLAN id of a tagged frame; `None` on an untagged one.
    pub fn vlan(&self) -> (r: Option<u16>)
        requires
            self.bytes().len() >= 14,
            eth_tagged(self.bytes()) ==> self.bytes().len() >= 18,
        ensures
            eth_tagged(self.bytes()) ==> r == Some(eth_vlan(self.bytes())),
            !eth_tagged(self.bytes()) ==> r is None,
    {
        if self.tpid() == ETHERTYPE_DOT1Q {
            Some(read_be16(self.buffer, 14) & 0x0FFF)
        } else {
            None
        }
    }

    /// The priority of a tagged frame; `None` on an untagged one.
    pub fn vlan_pcp(&self) -> (r: Option<u8>)
        requires
            self.bytes().len() >= 14,
            eth_tagged(self.bytes()) ==> self.bytes().len() >= 18,
        ensures
            eth_tagged(self.bytes()) ==> r == Some(eth_vlan_pcp(self.bytes())),
            !eth_tagged(self.bytes()) ==> r is None,
    {
        if self.tpid() == ETHERTYPE_DOT1Q {
            Some((self.buffer[14] & 0xE0) >> 5)
        } else {
            None
        }
    }

    /// The drop-eligible bit of a tagged frame; `None` on an untagged one.
    pub fn vlan_dei(&self) -> (r: Option<bool>)
        requires
            self.bytes().len() >= 14,
            eth_tagged(self.bytes()) ==> self.bytes().len() >= 18,
        ensures
            eth_tagged(self.bytes()) ==> r == Some(eth_vlan_dei(self.bytes())),
            !eth_tagged(self.bytes()) ==> r is None,
    {
        if self.tpid() == ETHERTYPE_DOT1Q {
            Some((self.buffer[14] & 0x10) >> 4 > 0)
        } else {
            None
        }
    }
}

/// Round trip: any well-formed builder state whose ethertype field holds a
/// real ethertype emits a frame the parser accepts, and the parser reads
/// back the addresses, ethertype and payload prefix the builder holds. The
/// frame is always long enough for both header shapes because of the
/// 46-byte minimum body.
pub proof fn lemma_ethernet_round_trip(p: EthernetPdu)
    requires
        p.wf(),
        eth_ethertype(p.bytes()) >= 0x600,
    ensures
        eth_valid(p.out_bytes()),
        eth_tagged(p.out_bytes()) == eth_tagged(p.bytes()),
        eth_header_len(p.out_bytes()) == eth_header_len(p.bytes()),
        eth_ethertype(p.out_bytes()) == eth_ethertype(p.bytes()),
        eth_destination(p.out_bytes()) == eth_destination(p.bytes()),
        eth_source(p.out_bytes()) == eth_source(p.bytes()),
        p.out_bytes().subrange(
            eth_header_len(p.bytes()),
            eth_header_len(p.bytes()) + p.payload_len(),
        ) == p.bytes().subrange(
            eth_header_len(p.bytes()),
            eth_header_len(p.bytes()) + p.payload_len(),
        ),
        p.out_bytes().len() == eth_header_len(p.bytes()) + p.padded_len() + 4,
        p.out_bytes().len() <= 1522,
        eth_fcs_ok(p.out_bytes()),
{
    let out = p.out_bytes();
    let c = p.content_len();
    assert(out.subrange(c, c + 4) =~= u32_be_bytes(crc32_spec(p.bytes().take(c))));
    assert(out.take(c) =~= p.bytes().take(c));
    assert(eth_destination(p.out_bytes()) =~= eth_destination(p.bytes()));
    assert(eth_source(p.out_bytes()) =~= eth_source(p.bytes()));
    assert(p.out_bytes().subrange(
        eth_header_len(p.bytes()),
        eth_header_len(p.bytes()) + p.payload_len(),
    ) =~= p.bytes().subrange(
        eth_header_len(p.bytes()),
        eth_header_len(p.bytes()) + p.payload_len(),
    ));
}

} // verus!
