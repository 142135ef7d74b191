//! IPv4 codec: variable-length (20-60 byte) headers including options, with
//! header-length/total-length/version validation, fragmentation fields, a
//! lazy option walk, and the pseudo-header used by upper-layer checksums.

use vstd::prelude::*;

use vstd::slice::slice_subrange;

use crate::icmp::icmp_valid;
use crate::icmp::IcmpParser;
use crate::tcp::tcp_valid;
use crate::tcp::TcpParser;
use crate::udp::udp_valid;
use crate::udp::UdpParser;
use crate::util::checksum;
use crate::util::checksum_spec;
use crate::util::lemma_checksum_insert_middle;
use crate::util::lemma_spans_bytes2;
use crate::util::spans_bytes;
use crate::wire::be16_at;
use crate::wire::read_be16;
use crate::wire::unchanged_outside;
use crate::wire::write_be16;
use crate::wire::write_bytes;
use crate::wire::u16_hi;
use crate::wire::u16_lo;
use crate::{Error, PduResult};

verus! {

pub const IPPROTO_ICMP: u8 = 1;

pub const IPPROTO_TCP: u8 = 6;

pub const IPPROTO_UDP: u8 = 17;

/// Version field: high nibble of byte 0.
pub open spec fn ipv4_version(b: Seq<u8>) -> u8 {
    b[0] >> 4
}

/// Header length field in 32-bit words: low nibble of byte 0.
pub open spec fn ipv4_ihl(b: Seq<u8>) -> u8 {
    b[0] & 0xF
}

/// Header length in bytes: the IHL field times four.
pub open spec fn ipv4_header_len(b: Seq<u8>) -> int {
    (b[0] & 0xF) * 4
}

/// Differentiated services field: high six bits of byte 1.
pub open spec fn ipv4_dscp(b: Seq<u8>) -> u8 {
    b[1] >> 2
}

/// Explicit congestion notification: low two bits of byte 1.
pub open spec fn ipv4_ecn(b: Seq<u8>) -> u8 {
    b[1] & 0x3
}

/// Total length field (offset 2): header plus payload in bytes.
pub open spec fn ipv4_total_length(b: Seq<u8>) -> u16 {
    be16_at(b, 2)
}

/// Identification field (offset 4).
pub open spec fn ipv4_identification(b: Seq<u8>) -> u16 {
    be16_at(b, 4)
}

/// Don't-fragment flag: bit 6 of byte 6.
pub open spec fn ipv4_dont_fragment(b: Seq<u8>) -> bool {
    b[6] & 0x40 != 0
}

/// More-fragments flag: bit 5 of byte 6.
pub open spec fn ipv4_more_fragments(b: Seq<u8>) -> bool {
    b[6] & 0x20 != 0
}

/// 13-bit fragment offset in 8-byte units: low five bits of byte 6 and all of
/// byte 7.
pub open spec fn ipv4_fragment_offset(b: Seq<u8>) -> u16 {
    ((b[6] & 0x1f) * 256 + b[7]) as u16
}

/// Time-to-live field (offset 8).
pub open spec fn ipv4_ttl(b: Seq<u8>) -> u8 {
    b[8]
}

/// Protocol number field (offset 9).
pub open spec fn ipv4_protocol(b: Seq<u8>) -> u8 {
    b[9]
}

/// Header checksum field (offset 10).
pub open spec fn ipv4_checksum(b: Seq<u8>) -> u16 {
    be16_at(b, 10)
}

/// Source address (offsets 12..16).
pub open spec fn ipv4_source(b: Seq<u8>) -> Seq<u8> {
    b.subrange(12, 16)
}

/// Destination address (offsets 16..20).
pub open spec fn ipv4_destination(b: Seq<u8>) -> Seq<u8> {
    b.subrange(16, 20)
}

/// Everything after the declared header.
pub open spec fn ipv4_payload(b: Seq<u8>) -> Seq<u8> {
    b.skip(ipv4_header_len(b))
}

/// What the header checksum is computed over: the header with its checksum
/// field (bytes 10..12) skipped.
pub open spec fn ipv4_csum_input(b: Seq<u8>) -> Seq<u8> {
    b.subrange(0, 10) + b.subrange(12, ipv4_header_len(b))
}

/// A buffer parses as IPv4 when it holds the declared header, the declared
/// lengths are self-consistent, and the version is 4.
pub open spec fn ipv4_valid(b: Seq<u8>) -> bool {
    &&& b.len() >= 20
    &&& ipv4_header_len(b) >= 20
    &&& b.len() >= ipv4_header_len(b)
    &&& ipv4_total_length(b) >= ipv4_header_len(b)
    &&& ipv4_version(b) == 4
}

/// The error a failing IPv4 parse reports, following the order the checks
/// run in: length floors first (`Truncated`), then consistency and version
/// (`Malformed`).
pub open spec fn ipv4_parse_error(b: Seq<u8>) -> Error {
    if b.len() < 20 || ipv4_header_len(b) < 20 {
        Error::Truncated
    } else {
        Error::Malformed
    }
}

/// A header whose checksum field holds the checksum of the rest of the
/// header sums to zero: the receive-side validation identity, at the IPv4
/// layout.
pub proof fn lemma_ipv4_checksum_validates(b: Seq<u8>)
    requires
        20 <= ipv4_header_len(b) <= b.len(),
        ipv4_checksum(b) == checksum_spec(ipv4_csum_input(b)),
    ensures
        checksum_spec(b.subrange(0, ipv4_header_len(b))) == 0,
{
    let pre = b.subrange(0, 10);
    let post = b.subrange(12, ipv4_header_len(b));
    let c = checksum_spec(pre + post);
    lemma_checksum_insert_middle(pre, post);
    assert(b.subrange(0, ipv4_header_len(b)) =~= pre + seq![(c / 256) as u8, (c % 256) as u8]
        + post);
}

/// The nibble fields of one byte stay within a nibble.
pub proof fn lemma_nibble_bounds(x: u8)
    ensures
        x & 0xF <= 15,
        x >> 4 <= 15,
{
    assert(x & 0xF <= 15 && x >> 4 <= 15) by (bit_vector);
}

/// Builder for one outbound IPv4 packet.
pub struct Ipv4Pdu {
    buffer: Vec<u8>,
    inner_size: usize,
}

impl Ipv4Pdu {
    /// The full fixed-capacity scratch buffer.
    pub closed spec fn bytes(&self) -> Seq<u8> {
        self.buffer@
    }

    /// Length of the payload currently attached.
    pub closed spec fn payload_len(&self) -> int {
        self.inner_size as int
    }

    pub open spec fn wf(&self) -> bool {
        &&& self.bytes().len() == 1500
        &&& 0 <= self.payload_len() <= 1480
    }

    /// The packet `as_bytes` returns: declared header plus payload.
    pub open spec fn out_bytes(&self) -> Seq<u8> {
        self.bytes().take(ipv4_header_len(self.bytes()) + self.payload_len())
    }

    /// A fresh packet: version 4, 20-byte header, time-to-live 64, total
    /// length covering the empty payload; everything else zero.
    pub fn new() -> (r: Ipv4Pdu)
        ensures
            r.wf(),
            r.payload_len() == 0,
            ipv4_version(r.bytes()) == 4,
            ipv4_ihl(r.bytes()) == 5,
            ipv4_header_len(r.bytes()) == 20,
            ipv4_ttl(r.bytes()) == 0x40,
            ipv4_total_length(r.bytes()) == 20,
            r.bytes()[1] == 0,
            ipv4_identification(r.bytes()) == 0,
            r.bytes()[6] == 0,
            r.bytes()[7] == 0,
            ipv4_protocol(r.bytes()) == 0,
            ipv4_checksum(r.bytes()) == 0,
            forall|k: int| 12 <= k < 1500 ==> r.bytes()[k] == 0,
    {
        let mut ipv4_pdu = Ipv4Pdu { buffer: vec![0u8; 1500], inner_size: 0 };
        ipv4_pdu.version(0x04);
        ipv4_pdu.ihl(0x05);
        ipv4_pdu.ttl(0x40);
        ipv4_pdu.compute_total_length();
        proof {
            assert(ipv4_version(ipv4_pdu.bytes()) == 4 && ipv4_ihl(ipv4_pdu.bytes()) == 5
                && ipv4_header_len(ipv4_pdu.bytes()) == 20) by {
                let b0 = ipv4_pdu.bytes()[0];
                assert(b0 == (0u8 & 0xF | 4u8 << 4) & 0xF0 | 5u8 & 0xF);
                assert(((0u8 & 0xF | 4u8 << 4) & 0xF0 | 5u8 & 0xF) >> 4 == 4) by (bit_vector);
                assert(((0u8 & 0xF | 4u8 << 4) & 0xF0 | 5u8 & 0xF) & 0xF == 5) by (bit_vector);
            }
        }
        ipv4_pdu
    }

    /// The finished packet: exactly the declared header plus the attached
    /// payload, never more than the layer's 1500-byte budget.
    pub fn as_bytes(&self) -> (r: &[u8])
        requires
            self.wf(),
            ipv4_header_len(self.bytes()) + self.payload_len() <= 1500,
        ensures
            r@ == self.out_bytes(),
            r@.len() == ipv4_header_len(self.bytes()) + self.payload_len(),
            r@.len() <= 1500,
    {
        let ihl = self.computed_ihl();
        slice_subrange(self.buffer.as_slice(), 0, ihl + self.inner_size)
    }

    /// The declared header length in bytes, read back from the IHL field.
    fn computed_ihl(&self) -> (r: usize)
        requires
            self.wf(),
        ensures
            r == ipv4_header_len(self.bytes()),
            r <= 60,
    {
        proof {
            lemma_nibble_bounds(self.bytes()[0]);
        }
        (self.buffer[0] & 0xF) as usize * 4
    }

    pub fn version(&mut self, value: u8)
        requires
            old(self).wf(),
        ensures
            unchanged_outside(old(self).bytes(), final(self).bytes(), 0, 1),
            final(self).bytes()[0] == (old(self).bytes()[0] & 0xF | value << 4),
            ipv4_version(final(self).bytes()) == value & 0xF,
            ipv4_ihl(final(self).bytes()) == ipv4_ihl(old(self).bytes()),
            final(self).payload_len() == old(self).payload_len(),
            final(self).wf(),
    {
        let b0 = self.buffer[0];
        let version = b0 & 0xF | value << 4;
        self.buffer.set(0, version);
        proof {
            assert((b0 & 0xF | value << 4) >> 4 == value & 0xF && (b0 & 0xF | value << 4) & 0xF
                == b0 & 0xF) by (bit_vector);
        }
    }

    pub fn ihl(&mut self, value: u8)
        requires
            old(self).wf(),
        ensures
            unchanged_outside(old(self).bytes(), final(self).bytes(), 0, 1),
            final(self).bytes()[0] == (old(self).bytes()[0] & 0xF0 | value & 0xF),
            ipv4_ihl(final(self).bytes()) == value & 0xF,
            ipv4_version(final(self).bytes()) == ipv4_version(old(self).bytes()),
            final(self).payload_len() == old(self).payload_len(),
            final(self).wf(),
    {
        let b0 = self.buffer[0];
        let ihl = b0 & 0xF0 | value & 0xF;
        self.buffer.set(0, ihl);
        proof {
            assert((b0 & 0xF0 | value & 0xF) & 0xF == value & 0xF && (b0 & 0xF0 | value & 0xF)
                >> 4 == b0 >> 4) by (bit_vector);
        }
    }

    pub fn dscp(&mut self, value: u8)
        requires
            old(self).wf(),
        ensures
            unchanged_outside(old(self).bytes(), final(self).bytes(), 1, 2),
            ipv4_dscp(final(self).bytes()) == value & 0x3F,
            ipv4_ecn(final(self).bytes()) == ipv4_ecn(old(self).bytes()),
            final(self).payload_len() == old(self).payload_len(),
            final(self).wf(),
    {
        let b1 = self.buffer[1];
        let dscp = b1 & 0x3 | value << 2;
        self.buffer.set(1, dscp);
        proof {
            assert((b1 & 0x3 | value << 2) >> 2 == value & 0x3F && (b1 & 0x3 | value << 2) & 0x3
                == b1 & 0x3) by (bit_vector);
        }
    }

    pub fn ecn(&mut self, value: u8)
        requires
            old(self).wf(),
        ensures
            unchanged_outside(old(self).bytes(), final(self).bytes(), 1, 2),
            ipv4_ecn(final(self).bytes()) == value & 0x3,
            ipv4_dscp(final(self).bytes()) == ipv4_dscp(old(self).bytes()),
            final(self).payload_len() == old(self).payload_len(),
            final(self).wf(),
    {
        let b1 = self.buffer[1];
        let ecn = b1 & 0xFC | value & 0x3;
        self.buffer.set(1, ecn);
        proof {
            assert((b1 & 0xFC | value & 0x3) & 0x3 == value & 0x3 && (b1 & 0xFC | value & 0x3)
                >> 2 == b1 >> 2) by (bit_vector);
        }
    }

    pub fn total_length(&mut self, value: u16)
        requires
            old(self).wf(),
        ensures
            unchanged_outside(old(self).bytes(), final(self).bytes(), 2, 4),
            ipv4_total_length(final(self).bytes()) == value,
            final(self).payload_len() == old(self).payload_len(),
            final(self).wf(),
    {
        write_be16(&mut self.buffer, 2, value);
    }

    /// Rewrites the total-length field from the current header length and
    /// payload size, as every payload or option change requires.
    fn compute_total_length(&mut self)
        requires
            old(self).wf(),
        ensures
            unchanged_outside(old(self).bytes(), final(self).bytes(), 2, 4),
            ipv4_total_length(final(self).bytes()) == ipv4_header_len(old(self).bytes()) + old(
                self,
            ).payload_len(),
            final(self).payload_len() == old(self).payload_len(),
            final(self).wf(),
    {
        let ihl = self.computed_ihl();
        let total = (self.inner_size + ihl) as u16;
        write_be16(&mut self.buffer, 2, total);
    }

    pub fn identification(&mut self, value: u16)
        requires
            old(self).wf(),
        ensures
            unchanged_outside(old(self).bytes(), final(self).bytes(), 4, 6),
            ipv4_identification(final(self).bytes()) == value,
            final(self).payload_len() == old(self).payload_len(),
            final(self).wf(),
    {
        write_be16(&mut self.buffer, 4, value);
    }

    pub fn dont_fragment(&mut self, value: bool)
        requires
            old(self).wf(),
        ensures
            unchanged_outside(old(self).bytes(), final(self).bytes(), 6, 7),
            ipv4_dont_fragment(final(self).bytes()) == value,
            ipv4_more_fragments(final(self).bytes()) == ipv4_more_fragments(old(self).bytes()),
            final(self).bytes()[6] & 0x1f == old(self).bytes()[6] & 0x1f,
            final(self).payload_len() == old(self).payload_len(),
            final(self).wf(),
    {
        let b6 = self.buffer[6];
        let dont_fragment = if value {
            b6 | 0x40
        } else {
            b6 & 0xBF
        };
        self.buffer.set(6, dont_fragment);
        proof {
            assert((b6 | 0x40) & 0x40 != 0 && (b6 & 0xBF) & 0x40 == 0 && (b6 | 0x40) & 0x20 == b6
                & 0x20 && (b6 & 0xBF) & 0x20 == b6 & 0x20 && (b6 | 0x40) & 0x1f == b6 & 0x1f && (b6
                & 0xBF) & 0x1f == b6 & 0x1f) by (bit_vector);
        }
    }

    pub fn more_fragments(&mut self, value: bool)
        requires
            old(self).wf(),
        ensures
            unchanged_outside(old(self).bytes(), final(self).bytes(), 6, 7),
            ipv4_more_fragments(final(self).bytes()) == value,
            ipv4_dont_fragment(final(self).bytes()) == ipv4_dont_fragment(old(self).bytes()),
            final(self).bytes()[6] & 0x1f == old(self).bytes()[6] & 0x1f,
            final(self).payload_len() == old(self).payload_len(),
            final(self).wf(),
    {
        let b6 = self.buffer[6];
        let more_fragments = if value {
            b6 | 0x20
        } else {
            b6 & 0xDF
        };
        self.buffer.set(6, more_fragments);
        proof {
            assert((b6 | 0x20) & 0x20 != 0 && (b6 & 0xDF) & 0x20 == 0 && (b6 | 0x20) & 0x40 == b6
                & 0x40 && (b6 & 0xDF) & 0x40 == b6 & 0x40 && (b6 | 0x20) & 0x1f == b6 & 0x1f && (b6
                & 0xDF) & 0x1f == b6 & 0x1f) by (bit_vector);
        }
    }

    pub fn fragment_offset(&mut self, value: u16)
        requires
            old(self).wf(),
        ensures
            unchanged_outside(old(self).bytes(), final(self).bytes(), 6, 8),
            ipv4_fragment_offset(final(self).bytes()) == value & 0x1FFF,
            ipv4_dont_fragment(final(self).bytes()) == ipv4_dont_fragment(old(self).bytes()),
            ipv4_more_fragments(final(self).bytes()) == ipv4_more_fragments(old(self).bytes()),
            final(self).payload_len() == old(self).payload_len(),
            final(self).wf(),
    {
        let b6 = self.buffer[6];
        let hi = (value / 256) as u8;
        let lo = (value % 256) as u8;
        let nb6 = b6 & 0xE0 | hi & 0x1F;
        self.buffer.set(6, nb6);
        self.buffer.set(7, lo);
        proof {
            let v = value;
            assert(((b6 & 0xE0 | ((v / 256) as u8) & 0x1F) & 0x1f) * 256 + ((v % 256) as u8) == (v
                & 0x1FFF) && (v & 0x1FFF) <= 0x1FFF && (b6 & 0xE0 | ((v / 256) as u8) & 0x1F)
                & 0x40 == b6 & 0x40 && (b6 & 0xE0 | ((v / 256) as u8) & 0x1F) & 0x20 == b6
                & 0x20) by (bit_vector);
        }
    }

    pub fn ttl(&mut self, value: u8)
        requires
            old(self).wf(),
        ensures
            unchanged_outside(old(self).bytes(), final(self).bytes(), 8, 9),
            ipv4_ttl(final(self).bytes()) == value,
            final(self).payload_len() == old(self).payload_len(),
            final(self).wf(),
    {
        self.buffer.set(8, value);
    }

    pub fn protocol(&mut self, value: u8)
        requires
            old(self).wf(),
        ensures
            unchanged_outside(old(self).bytes(), final(self).bytes(), 9, 10),
            ipv4_protocol(final(self).bytes()) == value,
            final(self).payload_len() == old(self).payload_len(),
            final(self).wf(),
    {
        self.buffer.set(9, value);
    }

    pub fn checksum(&mut self, value: u16)
        requires
            old(self).wf(),
        ensures
            unchanged_outside(old(self).bytes(), final(self).bytes(), 10, 12),
            ipv4_checksum(final(self).bytes()) == value,
            final(self).payload_len() == old(self).payload_len(),
            final(self).wf(),
    {
        write_be16(&mut self.buffer, 10, value);
    }

    /// Computes the header checksum over the header with its checksum field
    /// skipped, and writes it into that field. Must be called after every
    /// other header field and option is set.
    pub fn compute_checksum(&mut self)
        requires
            old(self).wf(),
            ipv4_header_len(old(self).bytes()) >= 12,
        ensures
            unchanged_outside(old(self).bytes(), final(self).bytes(), 10, 12),
            final(self).payload_len() == old(self).payload_len(),
            final(self).wf(),
            ipv4_checksum(final(self).bytes()) == checksum_spec(
                ipv4_csum_input(final(self).bytes()),
            ),
    {
        let ihl = self.computed_ihl();
        let head: &[u8] = slice_subrange(self.buffer.as_slice(), 0, 10);
        let rest: &[u8] = slice_subrange(self.buffer.as_slice(), 12, ihl);
        let spans: [&[u8]; 2] = [head, rest];
        let spans_sl: &[&[u8]] = spans.as_slice();
        let c = checksum(spans_sl);
        proof {
            let dv = spans_sl.deep_view();
            assert(dv.len() == 2);
            assert(dv[0] =~= head@);
            assert(dv[1] =~= rest@);
            lemma_spans_bytes2(dv);
            assert(spans_bytes(dv) =~= ipv4_csum_input(old(self).bytes()));
        }
        write_be16(&mut self.buffer, 10, c);
        proof {
            assert(ipv4_csum_input(final(self).bytes()) =~= ipv4_csum_input(old(self).bytes()));
        }
    }

    pub fn source_address(&mut self, value: [u8; 4])
        requires
            old(self).wf(),
        ensures
            unchanged_outside(old(self).bytes(), final(self).bytes(), 12, 16),
            ipv4_source(final(self).bytes()) == value@,
            final(self).payload_len() == old(self).payload_len(),
            final(self).wf(),
    {
        write_bytes(&mut self.buffer, 12, value.as_slice());
    }

    pub fn destination_address(&mut self, value: [u8; 4])
        requires
            old(self).wf(),
        ensures
            unchanged_outside(old(self).bytes(), final(self).bytes(), 16, 20),
            ipv4_destination(final(self).bytes()) == value@,
            final(self).payload_len() == old(self).payload_len(),
            final(self).wf(),
    {
        write_bytes(&mut self.buffer, 16, value.as_slice());
    }

    /// Writes the option block after the fixed header, extends the IHL field
    /// to cover it rounded up to a 4-byte boundary, and recomputes the total
    /// length. Options must be set before the payload, since the payload
    /// starts where the options end.
    pub fn options(&mut self, value: &[u8]) -> (r: PduResult<()>)
        requires
            old(self).wf(),
        ensures
            final(self).wf(),
            final(self).payload_len() == old(self).payload_len(),
            value@.len() > 40 ==> r == PduResult::<()>::Err(Error::Oversized) && *final(self)
                == *old(self),
            value@.len() <= 40 ==> {
                &&& r == PduResult::<()>::Ok(())
                &&& ipv4_header_len(final(self).bytes()) == 20 + ((value@.len() + 3) / 4) * 4
                &&& final(self).bytes().subrange(20, 20 + value@.len() as int) == value@
                &&& ipv4_version(final(self).bytes()) == ipv4_version(old(self).bytes())
                &&& ipv4_total_length(final(self).bytes()) == ipv4_header_len(final(self).bytes())
                    + old(self).payload_len()
                &&& forall|k: int|
                    (4 <= k < 20 || 20 + value@.len() <= k < 1500) ==> final(self).bytes()[k]
                        == old(self).bytes()[k]
            },
    {
        let len = value.len();
        if len > 40 {
            return Err(Error::Oversized);
        }
        let ihl_words = ((20 + len + 3) / 4) as u8;
        self.ihl(ihl_words);
        proof {
            let w = ihl_words;
            assert(w <= 15 ==> w & 0xF == w) by (bit_vector);
        }
        self.compute_total_length();
        write_bytes(&mut self.buffer, 20, value);
        proof {
            assert((20 + value@.len() as int + 3) / 4 * 4 == 20 + ((value@.len() as int + 3) / 4)
                * 4);
        }
        Ok(())
    }

    /// Attaches the payload after the declared header and recomputes the
    /// total length; fails with `Oversized` (leaving the packet unchanged)
    /// when header plus payload exceed the 1500-byte budget.
    pub fn inner(&mut self, value: &[u8]) -> (r: PduResult<()>)
        requires
            old(self).wf(),
            ipv4_header_len(old(self).bytes()) >= 20,
        ensures
            final(self).wf(),
            value@.len() > 1500 - ipv4_header_len(old(self).bytes()) ==> r == PduResult::<()>::Err(Error::Oversized) && *final(self) == *old(self),
            value@.len() <= 1500 - ipv4_header_len(old(self).bytes()) ==> {
                &&& r == PduResult::<()>::Ok(())
                &&& final(self).payload_len() == value@.len()
                &&& ipv4_header_len(final(self).bytes()) == ipv4_header_len(old(self).bytes())
                &&& ipv4_total_length(final(self).bytes()) == ipv4_header_len(old(self).bytes())
                    + value@.len()
                &&& ipv4_payload(final(self).out_bytes()) == value@
                &&& forall|k: int|
                    0 <= k < 1500 && !(2 <= k < 4) && !(ipv4_header_len(old(self).bytes()) <= k
                        < ipv4_header_len(old(self).bytes()) + value@.len()) ==> final(self).bytes()[k] == old(self).bytes()[k]
            },
    {
        let ihl = self.computed_ihl();
        let len = value.len();
        if len > 1500 - ihl {
            return Err(Error::Oversized);
        }
        self.inner_size = len;
        self.compute_total_length();
        write_bytes(&mut self.buffer, ihl, value);
        proof {
            assert(ipv4_payload(final(self).out_bytes()) =~= value@);
        }
        Ok(())
    }
}

/// Conceptual pseudo-header prepended to a transport segment before its
/// checksum is computed: addresses and protocol from the enclosing packet.
pub struct Ipv4PseudoHeader {
    pub source_address: [u8; 4],
    pub destination_address: [u8; 4],
    pub protocol: u8,
}

/// Pseudo-header information for any IP version this stack speaks.
pub enum IpPseudoHeader {
    Ipv4(Ipv4PseudoHeader),
}

/// The bytes a transport checksum conceptually prepends: source address,
/// destination address, a zero byte, the protocol, and the segment length.
pub open spec fn pseudo_header_bytes(src: Seq<u8>, dst: Seq<u8>, proto: u8, seg_len: u16) -> Seq<
    u8,
> {
    src + dst + seq![0u8, proto] + seq![u16_hi(seg_len), u16_lo(seg_len)]
}

/// A parsed IP packet of any version this stack speaks.
#[derive(Debug, Clone, Copy)]
pub enum Ip<'a> {
    Ipv4(Ipv4Parser<'a>),
}

impl<'a> Ip<'a> {
    /// Dispatches on the version nibble; only version 4 is supported.
    pub fn parse(buffer: &'a [u8]) -> (r: PduResult<Ip<'a>>)
        ensures
            match r {
                Ok(i) => match i {
                    Ip::Ipv4(p) => buffer@.len() > 0 && buffer@[0] >> 4 == 4 && ipv4_valid(
                        buffer@,
                    ) && p.bytes() == buffer@,
                },
                Err(e) => {
                    if buffer@.len() == 0 {
                        e == Error::Truncated
                    } else if buffer@[0] >> 4 != 4 {
                        e == Error::Malformed
                    } else {
                        !ipv4_valid(buffer@) && e == ipv4_parse_error(buffer@)
                    }
                },
            },
    {
        if buffer.is_empty() {
            return Err(Error::Truncated);
        }
        if buffer[0] >> 4 == 4 {
            match Ipv4Parser::parse(buffer) {
                Ok(p) => Ok(Ip::Ipv4(p)),
                Err(e) => Err(e),
            }
        } else {
            Err(Error::Malformed)
        }
    }
}

/// Payload of a parsed IPv4 packet: classified by protocol number when whole
/// (ICMP, UDP, TCP), raw otherwise — in particular, raw whenever the packet
/// is a non-first fragment, since reassembly is out of scope.
#[derive(Debug, Clone, Copy)]
pub enum Ipv4<'a> {
    Icmp(IcmpParser<'a>),
    Udp(UdpParser<'a>),
    Tcp(TcpParser<'a>),
    Raw(&'a [u8]),
}

/// Validating view over a received IPv4 packet.
#[derive(Debug, Clone, Copy)]
pub struct Ipv4Parser<'a> {
    buffer: &'a [u8],
}

impl<'a> Ipv4Parser<'a> {
    /// The underlying received bytes.
    pub closed spec fn bytes(&self) -> Seq<u8> {
        self.buffer@
    }

    pub open spec fn wf(&self) -> bool {
        ipv4_valid(self.bytes())
    }

    /// Accepts exactly the buffers `ipv4_valid` describes and reports
    /// `ipv4_parse_error` on the rest.
    pub fn parse(buffer: &'a [u8]) -> (r: PduResult<Ipv4Parser<'a>>)
        ensures
            match r {
                Ok(p) => ipv4_valid(buffer@) && p.bytes() == buffer@ && p.wf(),
                Err(e) => !ipv4_valid(buffer@) && e == ipv4_parse_error(buffer@),
            },
    {
        if buffer.len() < 20 {
            return Err(Error::Truncated);
        }
        let pdu = Ipv4Parser { buffer };
        let ihl = pdu.computed_ihl();
        if ihl < 20 {
            return Err(Error::Truncated);
        }
        if buffer.len() < ihl || (pdu.total_length() as usize) < ihl {
            return Err(Error::Malformed);
        }
        if pdu.version() != 4 {
            return Err(Error::Malformed);
        }
        Ok(pdu)
    }

    /// The payload, classified by protocol number when this is a whole
    /// packet, raw when unrecognized or fragmented.
    pub fn inner(&self) -> (r: PduResult<Ipv4<'a>>)
        requires
            self.wf(),
        ensures
            ipv4_inner_ensures(self.bytes(), r),
    {
        self.clone().into_inner()
    }

    /// The payload, classified by protocol number when this is a whole
    /// packet, raw when unrecognized or fragmented.
    pub fn into_inner(self) -> (r: PduResult<Ipv4<'a>>)
        requires
            self.wf(),
        ensures
            ipv4_inner_ensures(self.bytes(), r),
    {
        let ihl = self.computed_ihl();
        let rest = slice_subrange(self.buffer, ihl, self.buffer.len());
        proof {
            assert(rest@ =~= ipv4_payload(self.bytes()));
        }
        if self.fragment_offset() > 0 {
            Ok(Ipv4::Raw(rest))
        } else if self.protocol() == IPPROTO_ICMP {
            match IcmpParser::parse(rest) {
                Ok(p) => Ok(Ipv4::Icmp(p)),
                Err(e) => Err(e),
            }
        } else if self.protocol() == IPPROTO_TCP {
            match TcpParser::parse(rest) {
                Ok(p) => Ok(Ipv4::Tcp(p)),
                Err(e) => Err(e),
            }
        } else if self.protocol() == IPPROTO_UDP {
            match UdpParser::parse(rest) {
                Ok(p) => Ok(Ipv4::Udp(p)),
                Err(e) => Err(e),
            }
        } else {
            Ok(Ipv4::Raw(rest))
        }
    }

    pub fn version(&self) -> (r: u8)
        requires
            self.bytes().len() >= 20,
        ensures
            r == ipv4_version(self.bytes()),
    {
        self.buffer[0] >> 4
    }

    pub fn ihl(&self) -> (r: u8)
        requires
            self.bytes().len() >= 20,
        ensures
            r == ipv4_ihl(self.bytes()),
    {
        self.buffer[0] & 0xF
    }

    /// The declared header length in bytes: the IHL field times four.
    pub fn computed_ihl(&self) -> (r: usize)
        requires
            self.bytes().len() >= 20,
        ensures
            r == ipv4_header_len(self.bytes()),
            r <= 60,
    {
        proof {
            lemma_nibble_bounds(self.bytes()[0]);
        }
        (self.buffer[0] & 0xF) as usize * 4
    }

    pub fn dscp(&self) -> (r: u8)
        requires
            self.bytes().len() >= 20,
        ensures
            r == ipv4_dscp(self.bytes()),
    {
        self.buffer[1] >> 2
    }

    pub fn ecn(&self) -> (r: u8)
        requires
            self.bytes().len() >= 20,
        ensures
            r == ipv4_ecn(self.bytes()),
    {
        self.buffer[1] & 0x3
    }

    pub fn total_length(&self) -> (r: u16)
        requires
            self.bytes().len() >= 20,
        ensures
            r == ipv4_total_length(self.bytes()),
    {
        read_be16(self.buffer, 2)
    }

    pub fn identification(&self) -> (r: u16)
        requires
            self.bytes().len() >= 20,
        ensures
            r == ipv4_identification(self.bytes()),
    {
        read_be16(self.buffer, 4)
    }

    pub fn dont_fragment(&self) -> (r: bool)
        requires
            self.bytes().len() >= 20,
        ensures
            r == ipv4_dont_fragment(self.bytes()),
    {
        self.buffer[6] & 0x40 != 0
    }

    pub fn more_fragments(&self) -> (r: bool)
        requires
            self.bytes().len() >= 20,
        ensures
            r == ipv4_more_fragments(self.bytes()),
    {
        self.buffer[6] & 0x20 != 0
    }

    pub fn fragment_offset(&self) -> (r: u16)
        requires
            self.bytes().len() >= 20,
        ensures
            r == ipv4_fragment_offset(self.bytes()),
    {
        ((self.buffer[6] & 0x1f) as u16) * 256 + (self.buffer[7] as u16)
    }

    /// The fragment offset converted from 8-byte units to a byte offset;
    /// the 13-bit field times eight always fits 16 bits.
    pub fn computed_fragment_offset(&self) -> (r: u16)
        requires
            self.bytes().len() >= 20,
        ensures
            r == ipv4_fragment_offset(self.bytes()) * 8,
    {
        proof {
            let b6 = self.bytes()[6];
            assert(b6 & 0x1f <= 0x1f) by (bit_vector);
        }
        self.fragment_offset() * 8
    }

    pub fn ttl(&self) -> (r: u8)
        requires
            self.bytes().len() >= 20,
        ensures
            r == ipv4_ttl(self.bytes()),
    {
        self.buffer[8]
    }

    pub fn protocol(&self) -> (r: u8)
        requires
            self.bytes().len() >= 20,
        ensures
            r == ipv4_protocol(self.bytes()),
    {
        self.buffer[9]
    }

    pub fn checksum(&self) -> (r: u16)
        requires
            self.bytes().len() >= 20,
        ensures
            r == ipv4_checksum(self.bytes()),
    {
        read_be16(self.buffer, 10)
    }

    /// Recomputes the header checksum over the received header with the
    /// checksum field skipped; a valid header stores exactly this value.
    pub fn computed_checksum(&self) -> (r: u16)
        requires
            self.wf(),
        ensures
            r == checksum_spec(ipv4_csum_input(self.bytes())),
    {
        let ihl = self.computed_ihl();
        let head: &[u8] = slice_subrange(self.buffer, 0, 10);
        let rest: &[u8] = slice_subrange(self.buffer, 12, ihl);
        let spans: [&[u8]; 2] = [head, rest];
        let spans_sl: &[&[u8]] = spans.as_slice();
        let r = checksum(spans_sl);
        proof {
            let dv = spans_sl.deep_view();
            assert(dv.len() == 2);
            assert(dv[0] =~= head@);
            assert(dv[1] =~= rest@);
            lemma_spans_bytes2(dv);
            assert(spans_bytes(dv) =~= ipv4_csum_input(self.bytes()));
        }
        r
    }

    pub fn source_address(&self) -> (r: [u8; 4])
        requires
            self.bytes().len() >= 20,
        ensures
            r@ == ipv4_source(self.bytes()),
    {
        let b = self.buffer;
        let r = [b[12], b[13], b[14], b[15]];
        proof {
            assert(r@ =~= ipv4_source(self.bytes()));
        }
        r
    }

    pub fn destination_address(&self) -> (r: [u8; 4])
        requires
            self.bytes().len() >= 20,
        ensures
            r@ == ipv4_destination(self.bytes()),
    {
        let b = self.buffer;
        let r = [b[16], b[17], b[18], b[19]];
        proof {
            assert(r@ =~= ipv4_destination(self.bytes()));
        }
        r
    }

    /// A lazy walk over the option block between the fixed header and the
    /// declared header end.
    pub fn options(&self) -> (r: Ipv4OptionIterator<'a>)
        requires
            self.wf(),
        ensures
            r.bytes() == self.bytes(),
            r.pos_spec() == 20,
            r.boundary() == ipv4_header_len(self.bytes()),
            r.wf(),
    {
        Ipv4OptionIterator { buffer: self.buffer, pos: 20, ihl: self.computed_ihl() }
    }
}

/// What `into_inner` returns for a valid packet: the raw payload slice for a
/// non-first fragment or an unrecognized protocol, a nested parser for whole
/// ICMP/TCP/UDP payloads, and the nested parse error where the nested layer
/// rejects its slice.
pub open spec fn ipv4_inner_ensures<'a>(b: Seq<u8>, r: PduResult<Ipv4<'a>>) -> bool {
    let pay = ipv4_payload(b);
    if ipv4_fragment_offset(b) > 0 {
        match r {
            Ok(i) => match i {
                Ipv4::Raw(s) => s@ == pay,
                _ => false,
            },
            Err(_) => false,
        }
    } else if ipv4_protocol(b) == IPPROTO_ICMP {
        match r {
            Ok(i) => icmp_valid(pay) && match i {
                Ipv4::Icmp(p) => p.bytes() == pay,
                _ => false,
            },
            Err(e) => !icmp_valid(pay) && e == Error::Truncated,
        }
    } else if ipv4_protocol(b) == IPPROTO_TCP {
        match r {
            Ok(i) => tcp_valid(pay) && match i {
                Ipv4::Tcp(p) => p.bytes() == pay,
                _ => false,
            },
            Err(e) => !tcp_valid(pay) && e == Error::Truncated,
        }
    } else if ipv4_protocol(b) == IPPROTO_UDP {
        match r {
            Ok(i) => udp_valid(pay) && match i {
                Ipv4::Udp(p) => p.bytes() == pay,
                _ => false,
            },
            Err(e) => !udp_valid(pay) && e == Error::Truncated,
        }
    } else {
        match r {
            Ok(i) => match i {
                Ipv4::Raw(s) => s@ == pay,
                _ => false,
            },
            Err(_) => false,
        }
    }
}

/// One decoded IPv4 option: this stack carries them raw (kind plus the bytes
/// of the whole option).
#[derive(Debug, Clone, Copy)]
pub enum Ipv4Option<'a> {
    Raw { option: u8, data: &'a [u8] },
}

/// What one step of the option walk at `pos` yields: the option kind and its
/// total length, or `None` when the boundary is reached or a malformed
/// length would cross it.
pub open spec fn ipv4_option_step(b: Seq<u8>, pos: int, boundary: int) -> Option<(u8, int)> {
    if pos >= boundary {
        None
    } else {
        let kind = b[pos];
        if kind == 0 || kind == 1 {
            if boundary < pos + 1 {
                None
            } else {
                Some((kind, 1))
            }
        } else if boundary <= pos + 1 {
            None
        } else {
            let l = b[pos + 1] as int;
            if l < 2 || boundary < pos + l {
                None
            } else {
                Some((kind, l))
            }
        }
    }
}

/// Restartable lazy walk over an IPv4 option block: two cursors over the
/// shared packet bytes.
#[derive(Debug, Clone, Copy)]
pub struct Ipv4OptionIterator<'a> {
    buffer: &'a [u8],
    pos: usize,
    ihl: usize,
}

impl<'a> Ipv4OptionIterator<'a> {
    /// The underlying packet bytes.
    pub closed spec fn bytes(&self) -> Seq<u8> {
        self.buffer@
    }

    /// The current cursor.
    pub closed spec fn pos_spec(&self) -> int {
        self.pos as int
    }

    /// The declared end of the option block.
    pub closed spec fn boundary(&self) -> int {
        self.ihl as int
    }

    pub open spec fn wf(&self) -> bool {
        self.boundary() <= self.bytes().len()
    }

    /// Yields the next option and advances, or stops — without error — at
    /// the boundary or at a malformed length that would cross it.
    pub fn next(&mut self) -> (r: Option<Ipv4Option<'a>>)
        requires
            old(self).wf(),
        ensures
            final(self).wf(),
            final(self).bytes() == old(self).bytes(),
            final(self).boundary() == old(self).boundary(),
            match ipv4_option_step(old(self).bytes(), old(self).pos_spec(), old(self).boundary()) {
                None => r is None && final(self).pos_spec() == old(self).pos_spec(),
                Some((kind, l)) => {
                    &&& final(self).pos_spec() == old(self).pos_spec() + l
                    &&& match r {
                        Some(Ipv4Option::Raw { option, data }) => option == kind && data@ == old(
                            self,
                        ).bytes().subrange(old(self).pos_spec(), old(self).pos_spec() + l),
                        None => false,
                    }
                },
            },
    {
        if self.pos < self.ihl {
            let pos = self.pos;
            let option = self.buffer[pos];
            let len: usize = if option == 0 || option == 1 {
                1
            } else {
                if self.ihl <= pos + 1 {
                    return None;
                }
                let len = self.buffer[pos + 1] as usize;
                if len < 2 {
                    return None;
                }
                len
            };
            if len > self.ihl - pos {
                return None;
            }
            self.pos = pos + len;
            Some(Ipv4Option::Raw { option, data: slice_subrange(self.buffer, pos, pos + len) })
        } else {
            None
        }
    }
}

/// Round trip: any builder state whose version nibble is 4 and whose
/// declared header (at least the fixed 20 bytes) plus payload fit the buffer
/// emits a packet the parser accepts, with every field read back from the
/// same bytes the setters wrote.
pub proof fn lemma_ipv4_round_trip(p: Ipv4Pdu)
    requires
        p.wf(),
        ipv4_version(p.bytes()) == 4,
        20 <= ipv4_header_len(p.bytes()),
        ipv4_header_len(p.bytes()) + p.payload_len() <= 1500,
        ipv4_total_length(p.bytes()) == ipv4_header_len(p.bytes()) + p.payload_len(),
    ensures
        ipv4_valid(p.out_bytes()),
        ipv4_version(p.out_bytes()) == 4,
        ipv4_header_len(p.out_bytes()) == ipv4_header_len(p.bytes()),
        ipv4_total_length(p.out_bytes()) == ipv4_total_length(p.bytes()),
        ipv4_identification(p.out_bytes()) == ipv4_identification(p.bytes()),
        ipv4_ttl(p.out_bytes()) == ipv4_ttl(p.bytes()),
        ipv4_protocol(p.out_bytes()) == ipv4_protocol(p.bytes()),
        ipv4_checksum(p.out_bytes()) == ipv4_checksum(p.bytes()),
        ipv4_source(p.out_bytes()) == ipv4_source(p.bytes()),
        ipv4_destination(p.out_bytes()) == ipv4_destination(p.bytes()),
        ipv4_payload(p.out_bytes()) == p.bytes().subrange(
            ipv4_header_len(p.bytes()),
            ipv4_header_len(p.bytes()) + p.payload_len(),
        ),
{
    assert(ipv4_source(p.out_bytes()) =~= ipv4_source(p.bytes()));
    assert(ipv4_destination(p.out_bytes()) =~= ipv4_destination(p.bytes()));
    assert(ipv4_payload(p.out_bytes()) =~= p.bytes().subrange(
        ipv4_header_len(p.bytes()),
        ipv4_header_len(p.bytes()) + p.payload_len(),
    ));
}

} // verus!
