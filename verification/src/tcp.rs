//! TCP codec: variable-length (20-60 byte) segments with option decoding
//! (MSS, window scale, SACK-permitted, SACK blocks, timestamp, no-op,
//! end-of-options), the pseudo-header checksum, and the connection-state
//! vocabulary of the single-connection server.

use vstd::prelude::*;

use vstd::slice::slice_subrange;

use crate::ip::ipv4_destination;
use crate::ip::ipv4_header_len;
use crate::ip::ipv4_protocol;
use crate::ip::ipv4_source;
use crate::ip::ipv4_total_length;
use crate::ip::Ip;
use crate::ip::IpPseudoHeader;
use crate::util::checksum;
use crate::util::checksum_spec;
use crate::util::lemma_spans_bytes6;
use crate::util::spans_bytes;
use crate::wire::be16_at;
use crate::wire::be32_at;
use crate::wire::read_be16;
use crate::wire::read_be32;
use crate::wire::unchanged_outside;
use crate::wire::write_be16;
use crate::wire::write_be32;
use crate::wire::write_bytes;
use crate::wire::u16_hi;
use crate::wire::u16_lo;
use crate::{Error, PduResult};

verus! {

pub const TCP_FIN: u8 = 1;

pub const TCP_SYN: u8 = 2;

pub const TCP_RST: u8 = 4;

pub const TCP_PSH: u8 = 8;

pub const TCP_ACK: u8 = 16;

pub const TCP_URG: u8 = 32;

pub const TCP_ECN: u8 = 64;

pub const TCP_CWR: u8 = 128;

/// Source port field (offset 0).
pub open spec fn tcp_source_port(b: Seq<u8>) -> u16 {
    be16_at(b, 0)
}

/// Destination port field (offset 2).
pub open spec fn tcp_destination_port(b: Seq<u8>) -> u16 {
    be16_at(b, 2)
}

/// Sequence number field (offset 4).
pub open spec fn tcp_sequence_number(b: Seq<u8>) -> u32 {
    be32_at(b, 4)
}

/// Acknowledgement number field (offset 8).
pub open spec fn tcp_acknowledgement_number(b: Seq<u8>) -> u32 {
    be32_at(b, 8)
}

/// Data offset field in 32-bit words: high nibble of byte 12.
pub open spec fn tcp_data_offset(b: Seq<u8>) -> u8 {
    b[12] >> 4
}

/// Header length in bytes: the data offset field times four.
pub open spec fn tcp_header_len(b: Seq<u8>) -> int {
    (b[12] >> 4) * 4
}

/// The whole flags byte (offset 13).
pub open spec fn tcp_flags(b: Seq<u8>) -> u8 {
    b[13]
}

pub open spec fn tcp_fin(b: Seq<u8>) -> bool {
    b[13] & 0x1 != 0
}

pub open spec fn tcp_syn(b: Seq<u8>) -> bool {
    b[13] & 0x2 != 0
}

pub open spec fn tcp_rst(b: Seq<u8>) -> bool {
    b[13] & 0x4 != 0
}

pub open spec fn tcp_psh(b: Seq<u8>) -> bool {
    b[13] & 0x8 != 0
}

pub open spec fn tcp_ack(b: Seq<u8>) -> bool {
    b[13] & 0x10 != 0
}

pub open spec fn tcp_urg(b: Seq<u8>) -> bool {
    b[13] & 0x20 != 0
}

pub open spec fn tcp_ecn(b: Seq<u8>) -> bool {
    b[13] & 0x40 != 0
}

pub open spec fn tcp_cwr(b: Seq<u8>) -> bool {
    b[13] & 0x80 != 0
}

/// Window size field (offset 14).
pub open spec fn tcp_window_size(b: Seq<u8>) -> u16 {
    be16_at(b, 14)
}

/// Checksum field (offset 16).
pub open spec fn tcp_checksum(b: Seq<u8>) -> u16 {
    be16_at(b, 16)
}

/// Urgent pointer field (offset 18).
pub open spec fn tcp_urgent_pointer(b: Seq<u8>) -> u16 {
    be16_at(b, 18)
}

/// Everything after the declared header.
pub open spec fn tcp_payload(b: Seq<u8>) -> Seq<u8> {
    b.skip(tcp_header_len(b))
}

/// A received buffer must hold the fixed header and the whole declared
/// header.
pub open spec fn tcp_valid(b: Seq<u8>) -> bool {
    &&& b.len() >= 20
    &&& b.len() >= tcp_header_len(b)
}

/// What the TCP checksum is computed over: the pseudo-header (addresses,
/// zero, protocol, segment length), then the segment with its checksum field
/// skipped.
pub open spec fn tcp_csum_input(
    src: Seq<u8>,
    dst: Seq<u8>,
    proto: u8,
    seg_len: u16,
    b: Seq<u8>,
) -> Seq<u8> {
    src + dst + seq![0u8, proto] + seq![u16_hi(seg_len), u16_lo(seg_len)] + b.subrange(0, 16)
        + b.skip(18)
}

/// The high nibble of byte 12 is at most 15.
pub proof fn lemma_data_offset_bound(x: u8)
    ensures
        x >> 4 <= 15,
{
    assert(x >> 4 <= 15) by (bit_vector);
}

/// Builder for one outbound TCP segment.
pub struct TcpPdu {
    buffer: Vec<u8>,
    inner_size: usize,
}

impl TcpPdu {
    /// The full fixed-capacity scratch buffer.
    pub closed spec fn bytes(&self) -> Seq<u8> {
        self.buffer@
    }

    /// Length of the payload currently attached.
    pub closed spec fn payload_len(&self) -> int {
        self.inner_size as int
    }

    pub open spec fn wf(&self) -> bool {
        &&& self.bytes().len() == 1480
        &&& 0 <= self.payload_len() <= 1460
    }

    /// The segment `as_bytes` returns: declared header plus payload.
    pub open spec fn out_bytes(&self) -> Seq<u8> {
        self.bytes().take(tcp_header_len(self.bytes()) + self.payload_len())
    }

    /// A fresh segment: 20-byte header (data offset 5), window size 0xffff,
    /// everything else zero.
    pub fn new() -> (r: TcpPdu)
        ensures
            r.wf(),
            r.payload_len() == 0,
            tcp_data_offset(r.bytes()) == 5,
            tcp_header_len(r.bytes()) == 20,
            tcp_window_size(r.bytes()) == 0xFFFF,
            tcp_flags(r.bytes()) == 0,
            tcp_source_port(r.bytes()) == 0,
            tcp_destination_port(r.bytes()) == 0,
            tcp_sequence_number(r.bytes()) == 0,
            tcp_acknowledgement_number(r.bytes()) == 0,
            tcp_checksum(r.bytes()) == 0,
            tcp_urgent_pointer(r.bytes()) == 0,
            forall|k: int| 16 <= k < 1480 ==> r.bytes()[k] == 0,
    {
        let mut tcp_pdu = TcpPdu { buffer: vec![0u8; 1480], inner_size: 0 };
        tcp_pdu.data_offset(0x05);
        tcp_pdu.window_size(0xFFFF);
        proof {
            assert((0u8 & 0xF | 5u8 << 4) >> 4 == 5) by (bit_vector);
        }
        tcp_pdu
    }

    /// The finished segment: exactly the declared header plus the attached
    /// payload, never more than the layer's 1480-byte budget.
    pub fn as_bytes(&self) -> (r: &[u8])
        requires
            self.wf(),
            tcp_header_len(self.bytes()) + self.payload_len() <= 1480,
        ensures
            r@ == self.out_bytes(),
            r@.len() == tcp_header_len(self.bytes()) + self.payload_len(),
            r@.len() <= 1480,
    {
        let doff = self.computed_data_offset();
        slice_subrange(self.buffer.as_slice(), 0, doff + self.inner_size)
    }

    /// The declared header length in bytes, read back from the data offset
    /// field.
    fn computed_data_offset(&self) -> (r: usize)
        requires
            self.wf(),
        ensures
            r == tcp_header_len(self.bytes()),
            r <= 60,
    {
        proof {
            lemma_data_offset_bound(self.bytes()[12]);
        }
        (self.buffer[12] >> 4) as usize * 4
    }

    pub fn source_port(&mut self, value: u16)
        requires
            old(self).wf(),
        ensures
            unchanged_outside(old(self).bytes(), final(self).bytes(), 0, 2),
            tcp_source_port(final(self).bytes()) == value,
            final(self).payload_len() == old(self).payload_len(),
            final(self).wf(),
    {
        write_be16(&mut self.buffer, 0, value);
    }

    pub fn destination_port(&mut self, value: u16)
        requires
            old(self).wf(),
        ensures
            unchanged_outside(old(self).bytes(), final(self).bytes(), 2, 4),
            tcp_destination_port(final(self).bytes()) == value,
            final(self).payload_len() == old(self).payload_len(),
            final(self).wf(),
    {
        write_be16(&mut self.buffer, 2, value);
    }

    pub fn sequence_number(&mut self, value: u32)
        requires
            old(self).wf(),
        ensures
            unchanged_outside(old(self).bytes(), final(self).bytes(), 4, 8),
            tcp_sequence_number(final(self).bytes()) == value,
            final(self).payload_len() == old(self).payload_len(),
            final(self).wf(),
    {
        write_be32(&mut self.buffer, 4, value);
    }

    pub fn acknowledgement_number(&mut self, value: u32)
        requires
            old(self).wf(),
        ensures
            unchanged_outside(old(self).bytes(), final(self).bytes(), 8, 12),
            tcp_acknowledgement_number(final(self).bytes()) == value,
            final(self).payload_len() == old(self).payload_len(),
            final(self).wf(),
    {
        write_be32(&mut self.buffer, 8, value);
    }

    pub fn data_offset(&mut self, value: u8)
        requires
            old(self).wf(),
        ensures
            unchanged_outside(old(self).bytes(), final(self).bytes(), 12, 13),
            final(self).bytes()[12] == (old(self).bytes()[12] & 0xF | value << 4),
            tcp_data_offset(final(self).bytes()) == value & 0xF,
            final(self).payload_len() == old(self).payload_len(),
            final(self).wf(),
    {
        let b12 = self.buffer[12];
        let data_offset = b12 & 0xF | value << 4;
        self.buffer.set(12, data_offset);
        proof {
            assert((b12 & 0xF | value << 4) >> 4 == value & 0xF) by (bit_vector);
        }
    }

    /// Sets the whole flags byte at once.
    pub fn flags(&mut self, value: u8)
        requires
            old(self).wf(),
        ensures
            unchanged_outside(old(self).bytes(), final(self).bytes(), 13, 14),
            tcp_flags(final(self).bytes()) == value,
            final(self).payload_len() == old(self).payload_len(),
            final(self).wf(),
    {
        self.buffer.set(13, value);
    }

    pub fn fin(&mut self, value: bool)
        requires
            old(self).wf(),
        ensures
            unchanged_outside(old(self).bytes(), final(self).bytes(), 13, 14),
            tcp_fin(final(self).bytes()) == value,
            final(self).bytes()[13] & 0xFE == old(self).bytes()[13] & 0xFE,
            final(self).payload_len() == old(self).payload_len(),
            final(self).wf(),
    {
        let b = self.buffer[13];
        let nb = if value {
            b | 0x1
        } else {
            b & 0xFE
        };
        self.buffer.set(13, nb);
        proof {
            assert((b | 0x1) & 0x1 != 0 && (b & 0xFE) & 0x1 == 0 && (b | 0x1) & 0xFE == b & 0xFE
                && (b & 0xFE) & 0xFE == b & 0xFE) by (bit_vector);
        }
    }

    pub fn syn(&mut self, value: bool)
        requires
            old(self).wf(),
        ensures
            unchanged_outside(old(self).bytes(), final(self).bytes(), 13, 14),
            tcp_syn(final(self).bytes()) == value,
            final(self).bytes()[13] & 0xFD == old(self).bytes()[13] & 0xFD,
            final(self).payload_len() == old(self).payload_len(),
            final(self).wf(),
    {
        let b = self.buffer[13];
        let nb = if value {
            b | 0x2
        } else {
            b & 0xFD
        };
        self.buffer.set(13, nb);
        proof {
            assert((b | 0x2) & 0x2 != 0 && (b & 0xFD) & 0x2 == 0 && (b | 0x2) & 0xFD == b & 0xFD
                && (b & 0xFD) & 0xFD == b & 0xFD) by (bit_vector);
        }
    }

    pub fn rst(&mut self, value: bool)
        requires
            old(self).wf(),
        ensures
            unchanged_outside(old(self).bytes(), final(self).bytes(), 13, 14),
            tcp_rst(final(self).bytes()) == value,
            final(self).bytes()[13] & 0xFB == old(self).bytes()[13] & 0xFB,
            final(self).payload_len() == old(self).payload_len(),
            final(self).wf(),
    {
        let b = self.buffer[13];
        let nb = if value {
            b | 0x4
        } else {
            b & 0xFB
        };
        self.buffer.set(13, nb);
        proof {
            assert((b | 0x4) & 0x4 != 0 && (b & 0xFB) & 0x4 == 0 && (b | 0x4) & 0xFB == b & 0xFB
                && (b & 0xFB) & 0xFB == b & 0xFB) by (bit_vector);
        }
    }

    pub fn psh(&mut self, value: bool)
        requires
            old(self).wf(),
        ensures
            unchanged_outside(old(self).bytes(), final(self).bytes(), 13, 14),
            tcp_psh(final(self).bytes()) == value,
            final(self).bytes()[13] & 0xF7 == old(self).bytes()[13] & 0xF7,
            final(self).payload_len() == old(self).payload_len(),
            final(self).wf(),
    {
        let b = self.buffer[13];
        let nb = if value {
            b | 0x8
        } else {
            b & 0xF7
        };
        self.buffer.set(13, nb);
        proof {
            assert((b | 0x8) & 0x8 != 0 && (b & 0xF7) & 0x8 == 0 && (b | 0x8) & 0xF7 == b & 0xF7
                && (b & 0xF7) & 0xF7 == b & 0xF7) by (bit_vector);
        }
    }

    pub fn ack(&mut self, value: bool)
        requires
            old(self).wf(),
        ensures
            unchanged_outside(old(self).bytes(), final(self).bytes(), 13, 14),
            tcp_ack(final(self).bytes()) == value,
            final(self).bytes()[13] & 0xEF == old(self).bytes()[13] & 0xEF,
            final(self).payload_len() == old(self).payload_len(),
            final(self).wf(),
    {
        let b = self.buffer[13];
        let nb = if value {
            b | 0x10
        } else {
            b & 0xEF
        };
        self.buffer.set(13, nb);
        proof {
            assert((b | 0x10) & 0x10 != 0 && (b & 0xEF) & 0x10 == 0 && (b | 0x10) & 0xEF == b
                & 0xEF && (b & 0xEF) & 0xEF == b & 0xEF) by (bit_vector);
        }
    }

    pub fn urg(&mut self, value: bool)
        requires
            old(self).wf(),
        ensures
            unchanged_outside(old(self).bytes(), final(self).bytes(), 13, 14),
            tcp_urg(final(self).bytes()) == value,
            final(self).bytes()[13] & 0xDF == old(self).bytes()[13] & 0xDF,
            final(self).payload_len() == old(self).payload_len(),
            final(self).wf(),
    {
        let b = self.buffer[13];
        let nb = if value {
            b | 0x20
        } else {
            b & 0xDF
        };
        self.buffer.set(13, nb);
        proof {
            assert((b | 0x20) & 0x20 != 0 && (b & 0xDF) & 0x20 == 0 && (b | 0x20) & 0xDF == b
                & 0xDF && (b & 0xDF) & 0xDF == b & 0xDF) by (bit_vector);
        }
    }

    pub fn ecn(&mut self, value: bool)
        requires
            old(self).wf(),
        ensures
            unchanged_outside(old(self).bytes(), final(self).bytes(), 13, 14),
            tcp_ecn(final(self).bytes()) == value,
            final(self).bytes()[13] & 0xBF == old(self).bytes()[13] & 0xBF,
            final(self).payload_len() == old(self).payload_len(),
            final(self).wf(),
    {
        let b = self.buffer[13];
        let nb = if value {
            b | 0x40
        } else {
            b & 0xBF
        };
        self.buffer.set(13, nb);
        proof {
            assert((b | 0x40) & 0x40 != 0 && (b & 0xBF) & 0x40 == 0 && (b | 0x40) & 0xBF == b
                & 0xBF && (b & 0xBF) & 0xBF == b & 0xBF) by (bit_vector);
        }
    }

    pub fn cwr(&mut self, value: bool)
        requires
            old(self).wf(),
        ensures
            unchanged_outside(old(self).bytes(), final(self).bytes(), 13, 14),
            tcp_cwr(final(self).bytes()) == value,
            final(self).bytes()[13] & 0x7F == old(self).bytes()[13] & 0x7F,
            final(self).payload_len() == old(self).payload_len(),
            final(self).wf(),
    {
        let b = self.buffer[13];
        let nb = if value {
            b | 0x80
        } else {
            b & 0x7F
        };
        self.buffer.set(13, nb);
        proof {
            assert((b | 0x80) & 0x80 != 0 && (b & 0x7F) & 0x80 == 0 && (b | 0x80) & 0x7F == b
                & 0x7F && (b & 0x7F) & 0x7F == b & 0x7F) by (bit_vector);
        }
    }

    pub fn window_size(&mut self, value: u16)
        requires
            old(self).wf(),
        ensures
            unchanged_outside(old(self).bytes(), final(self).bytes(), 14, 16),
            tcp_window_size(final(self).bytes()) == value,
            final(self).payload_len() == old(self).payload_len(),
            final(self).wf(),
    {
        write_be16(&mut self.buffer, 14, value);
    }

    pub fn checksum(&mut self, value: u16)
        requires
            old(self).wf(),
        ensures
            unchanged_outside(old(self).bytes(), final(self).bytes(), 16, 18),
            tcp_checksum(final(self).bytes()) == value,
            final(self).payload_len() == old(self).payload_len(),
            final(self).wf(),
    {
        write_be16(&mut self.buffer, 16, value);
    }

    /// Computes the pseudo-header checksum over the segment being built and
    /// writes it into the checksum field. Must be called after every other
    /// field, option and the payload are set.
    pub fn compute_checksum(&mut self, ip: &IpPseudoHeader)
        requires
            old(self).wf(),
            20 <= tcp_header_len(old(self).bytes()),
            tcp_header_len(old(self).bytes()) + old(self).payload_len() <= 1480,
        ensures
            unchanged_outside(old(self).bytes(), final(self).bytes(), 16, 18),
            final(self).payload_len() == old(self).payload_len(),
            final(self).wf(),
            match ip {
                IpPseudoHeader::Ipv4(ph) => tcp_checksum(final(self).out_bytes())
                    == checksum_spec(
                    tcp_csum_input(
                        ph.source_address@,
                        ph.destination_address@,
                        ph.protocol,
                        (tcp_header_len(final(self).bytes()) + final(self).payload_len()) as u16,
                        final(self).out_bytes(),
                    ),
                ),
            },
    {
        let doff = self.computed_data_offset();
        let end = doff + self.inner_size;
        match ip {
            IpPseudoHeader::Ipv4(ipv4) => {
                let seg_len = end as u16;
                let proto_pair: [u8; 2] = [0x00, ipv4.protocol];
                let len_pair: [u8; 2] = [(seg_len / 256) as u8, (seg_len % 256) as u8];
                let head: &[u8] = slice_subrange(self.buffer.as_slice(), 0, 16);
                let tail: &[u8] = slice_subrange(self.buffer.as_slice(), 18, end);
                let spans: [&[u8]; 6] = [
                    ipv4.source_address.as_slice(),
                    ipv4.destination_address.as_slice(),
                    proto_pair.as_slice(),
                    len_pair.as_slice(),
                    head,
                    tail,
                ];
                let spans_sl: &[&[u8]] = spans.as_slice();
                let csum = checksum(spans_sl);
                proof {
                    let dv = spans_sl.deep_view();
                    assert(dv.len() == 6);
                    assert(dv[0] =~= ipv4.source_address@);
                    assert(dv[1] =~= ipv4.destination_address@);
                    assert(dv[2] =~= proto_pair@);
                    assert(dv[3] =~= len_pair@);
                    assert(dv[4] =~= head@);
                    assert(dv[5] =~= tail@);
                    lemma_spans_bytes6(dv);
                    assert(proto_pair@ =~= seq![0u8, ipv4.protocol]);
                    assert(len_pair@ =~= seq![u16_hi(seg_len), u16_lo(seg_len)]);
                    assert(spans_bytes(dv) =~= tcp_csum_input(
                        ipv4.source_address@,
                        ipv4.destination_address@,
                        ipv4.protocol,
                        seg_len,
                        old(self).out_bytes(),
                    ));
                }
                write_be16(&mut self.buffer, 16, csum);
                proof {
                    assert(tcp_checksum(final(self).out_bytes()) == csum);
                    assert(tcp_csum_input(
                        ipv4.source_address@,
                        ipv4.destination_address@,
                        ipv4.protocol,
                        seg_len,
                        final(self).out_bytes(),
                    ) =~= tcp_csum_input(
                        ipv4.source_address@,
                        ipv4.destination_address@,
                        ipv4.protocol,
                        seg_len,
                        old(self).out_bytes(),
                    ));
                }
            },
        }
    }

    pub fn urgent_pointer(&mut self, value: u16)
        requires
            old(self).wf(),
        ensures
            unchanged_outside(old(self).bytes(), final(self).bytes(), 18, 20),
            tcp_urgent_pointer(final(self).bytes()) == value,
            final(self).payload_len() == old(self).payload_len(),
            final(self).wf(),
    {
        write_be16(&mut self.buffer, 18, value);
    }

    /// Writes the option block after the fixed header and extends the data
    /// offset field to cover it rounded up to a 4-byte boundary. Options
    /// must be set before the payload, since the payload starts where the
    /// options end.
    pub fn options(&mut self, value: &[u8]) -> (r: PduResult<()>)
        requires
            old(self).wf(),
        ensures
            final(self).wf(),
            final(self).payload_len() == old(self).payload_len(),
            value@.len() > 40 ==> r == PduResult::<()>::Err(Error::Oversized) && *final(self)
                == *old(self),
            value@.len() <= 40 ==> {
                &&& r == PduResult::<()>::Ok(())
                &&& tcp_header_len(final(self).bytes()) == 20 + ((value@.len() + 3) / 4) * 4
                &&& final(self).bytes().subrange(20, 20 + value@.len() as int) == value@
                &&& forall|k: int|
                    (0 <= k < 12 || 13 <= k < 20 || 20 + value@.len() <= k < 1480) ==> final(self).bytes()[k] == old(self).bytes()[k]
            },
    {
        let len = value.len();
        if len > 40 {
            return Err(Error::Oversized);
        }
        let doff_words = ((20 + len + 3) / 4) as u8;
        self.data_offset(doff_words);
        proof {
            let w = doff_words;
            assert(w <= 15 ==> w & 0xF == w) by (bit_vector);
        }
        write_bytes(&mut self.buffer, 20, value);
        proof {
            assert((20 + value@.len() as int + 3) / 4 * 4 == 20 + ((value@.len() as int + 3) / 4)
                * 4);
        }
        Ok(())
    }

    /// Attaches the payload after the declared header; fails with
    /// `Oversized` (leaving the segment unchanged) when header plus payload
    /// exceed the 1480-byte budget.
    pub fn inner(&mut self, value: &[u8]) -> (r: PduResult<()>)
        requires
            old(self).wf(),
            20 <= tcp_header_len(old(self).bytes()),
        ensures
            final(self).wf(),
            value@.len() > 1480 - tcp_header_len(old(self).bytes()) ==> r == PduResult::<()>::Err(Error::Oversized) && *final(self) == *old(self),
            value@.len() <= 1480 - tcp_header_len(old(self).bytes()) ==> {
                &&& r == PduResult::<()>::Ok(())
                &&& final(self).payload_len() == value@.len()
                &&& tcp_header_len(final(self).bytes()) == tcp_header_len(old(self).bytes())
                &&& tcp_payload(final(self).out_bytes()) == value@
                &&& forall|k: int|
                    0 <= k < 1480 && !(tcp_header_len(old(self).bytes()) <= k < tcp_header_len(
                        old(self).bytes(),
                    ) + value@.len()) ==> final(self).bytes()[k] == old(self).bytes()[k]
            },
    {
        let data_offset = self.computed_data_offset();
        let len = value.len();
        if len > 1480 - data_offset {
            return Err(Error::Oversized);
        }
        self.inner_size = len;
        write_bytes(&mut self.buffer, data_offset, value);
        proof {
            assert(tcp_payload(final(self).out_bytes()) =~= value@);
        }
        Ok(())
    }
}

/// Payload of a received TCP segment, raw because the next layer up (the
/// HTTP framer) takes plain bytes.
#[derive(Debug, Clone, Copy)]
pub enum Tcp<'a> {
    Raw(&'a [u8]),
}

/// Validating view over a received TCP segment.
#[derive(Debug, Clone, Copy)]
pub struct TcpParser<'a> {
    buffer: &'a [u8],
}

impl<'a> TcpParser<'a> {
    /// The underlying received bytes.
    pub closed spec fn bytes(&self) -> Seq<u8> {
        self.buffer@
    }

    pub open spec fn wf(&self) -> bool {
        tcp_valid(self.bytes())
    }

    /// Accepts exactly the buffers that hold the whole declared header;
    /// the rest are `Truncated`.
    pub fn parse(buffer: &'a [u8]) -> (r: PduResult<TcpParser<'a>>)
        ensures
            match r {
                Ok(p) => tcp_valid(buffer@) && p.bytes() == buffer@ && p.wf(),
                Err(e) => !tcp_valid(buffer@) && e == Error::Truncated,
            },
    {
        if buffer.len() < 20 {
            return Err(Error::Truncated);
        }
        let pdu = TcpParser { buffer };
        if buffer.len() < pdu.computed_data_offset() {
            return Err(Error::Truncated);
        }
        Ok(pdu)
    }

    /// The payload after the declared header, as raw bytes.
    pub fn inner(&self) -> (r: PduResult<Tcp<'a>>)
        requires
            self.wf(),
        ensures
            match r {
                Ok(i) => match i {
                    Tcp::Raw(s) => s@ == tcp_payload(self.bytes()),
                },
                Err(_) => false,
            },
    {
        self.clone().into_inner()
    }

    /// The payload after the declared header, as raw bytes.
    pub fn into_inner(self) -> (r: PduResult<Tcp<'a>>)
        requires
            self.wf(),
        ensures
            match r {
                Ok(i) => match i {
                    Tcp::Raw(s) => s@ == tcp_payload(self.bytes()),
                },
                Err(_) => false,
            },
    {
        let doff = self.computed_data_offset();
        let rest = slice_subrange(self.buffer, doff, self.buffer.len());
        proof {
            assert(rest@ =~= tcp_payload(self.bytes()));
        }
        Ok(Tcp::Raw(rest))
    }

    pub fn source_port(&self) -> (r: u16)
        requires
            self.bytes().len() >= 20,
        ensures
            r == tcp_source_port(self.bytes()),
    {
        read_be16(self.buffer, 0)
    }

    pub fn destination_port(&self) -> (r: u16)
        requires
            self.bytes().len() >= 20,
        ensures
            r == tcp_destination_port(self.bytes()),
    {
        read_be16(self.buffer, 2)
    }

    pub fn sequence_number(&self) -> (r: u32)
        requires
            self.bytes().len() >= 20,
        ensures
            r == tcp_sequence_number(self.bytes()),
    {
        read_be32(self.buffer, 4)
    }

    pub fn acknowledgement_number(&self) -> (r: u32)
        requires
            self.bytes().len() >= 20,
        ensures
            r == tcp_acknowledgement_number(self.bytes()),
    {
        read_be32(self.buffer, 8)
    }

    pub fn data_offset(&self) -> (r: u8)
        requires
            self.bytes().len() >= 20,
        ensures
            r == tcp_data_offset(self.bytes()),
    {
        self.buffer[12] >> 4
    }

    /// The declared header length in bytes: the data offset field times
    /// four.
    pub fn computed_data_offset(&self) -> (r: usize)
        requires
            self.bytes().len() >= 20,
        ensures
            r == tcp_header_len(self.bytes()),
            r <= 60,
    {
        proof {
            lemma_data_offset_bound(self.bytes()[12]);
        }
        (self.buffer[12] >> 4) as usize * 4
    }

    pub fn flags(&self) -> (r: u8)
        requires
            self.bytes().len() >= 20,
        ensures
            r == tcp_flags(self.bytes()),
    {
        self.buffer[13]
    }

    pub fn fin(&self) -> (r: bool)
        requires
            self.bytes().len() >= 20,
        ensures
            r == tcp_fin(self.bytes()),
    {
        self.buffer[13] & 0x1 != 0
    }

    pub fn syn(&self) -> (r: bool)
        requires
            self.bytes().len() >= 20,
        ensures
            r == tcp_syn(self.bytes()),
    {
        self.buffer[13] & 0x2 != 0
    }

    pub fn rst(&self) -> (r: bool)
        requires
            self.bytes().len() >= 20,
        ensures
            r == tcp_rst(self.bytes()),
    {
        self.buffer[13] & 0x4 != 0
    }

    pub fn psh(&self) -> (r: bool)
        requires
            self.bytes().len() >= 20,
        ensures
            r == tcp_psh(self.bytes()),
    {
        self.buffer[13] & 0x8 != 0
    }

    pub fn ack(&self) -> (r: bool)
        requires
            self.bytes().len() >= 20,
        ensures
            r == tcp_ack(self.bytes()),
    {
        self.buffer[13] & 0x10 != 0
    }

    pub fn urg(&self) -> (r: bool)
        requires
            self.bytes().len() >= 20,
        ensures
            r == tcp_urg(self.bytes()),
    {
        self.buffer[13] & 0x20 != 0
    }

    pub fn ecn(&self) -> (r: bool)
        requires
            self.bytes().len() >= 20,
        ensures
            r == tcp_ecn(self.bytes()),
    {
        self.buffer[13] & 0x40 != 0
    }

    pub fn cwr(&self) -> (r: bool)
        requires
            self.bytes().len() >= 20,
        ensures
            r == tcp_cwr(self.bytes()),
    {
        self.buffer[13] & 0x80 != 0
    }

    pub fn window_size(&self) -> (r: u16)
        requires
            self.bytes().len() >= 20,
        ensures
            r == tcp_window_size(self.bytes()),
    {
        read_be16(self.buffer, 14)
    }

    /// The window size scaled by a negotiated shift; the shift must be a
    /// valid 32-bit shift amount.
    pub fn computed_window_size(&self, shift: u8) -> (r: u32)
        requires
            self.bytes().len() >= 20,
            shift < 32,
        ensures
            r == (tcp_window_size(self.bytes()) as u32) << shift,
    {
        (self.window_size() as u32) << (shift as u32)
    }

    pub fn checksum(&self) -> (r: u16)
        requires
            self.bytes().len() >= 20,
        ensures
            r == tcp_checksum(self.bytes()),
    {
        read_be16(self.buffer, 16)
    }

    /// Recomputes the pseudo-header checksum over the received segment,
    /// taking the segment length from the enclosing packet's declared
    /// lengths; a valid segment stores exactly this value.
    pub fn computed_checksum(&self, ip: &Ip<'_>) -> (r: u16)
        requires
            self.wf(),
            match ip {
                Ip::Ipv4(p) => p.wf() && ipv4_total_length(p.bytes()) - ipv4_header_len(p.bytes())
                    <= u16::MAX,
            },
        ensures
            match ip {
                Ip::Ipv4(p) => r == checksum_spec(
                    tcp_csum_input(
                        ipv4_source(p.bytes()),
                        ipv4_destination(p.bytes()),
                        ipv4_protocol(p.bytes()),
                        (ipv4_total_length(p.bytes()) - ipv4_header_len(p.bytes())) as u16,
                        self.bytes(),
                    ),
                ),
            },
    {
        match ip {
            Ip::Ipv4(ipv4) => {
                let src = ipv4.source_address();
                let dst = ipv4.destination_address();
                let seg_len = ipv4.total_length() - (ipv4.computed_ihl() as u16);
                let proto_pair: [u8; 2] = [0x00, ipv4.protocol()];
                let len_pair: [u8; 2] = [(seg_len / 256) as u8, (seg_len % 256) as u8];
                let head: &[u8] = slice_subrange(self.buffer, 0, 16);
                let tail: &[u8] = slice_subrange(self.buffer, 18, self.buffer.len());
                let spans: [&[u8]; 6] = [
                    src.as_slice(),
                    dst.as_slice(),
                    proto_pair.as_slice(),
                    len_pair.as_slice(),
                    head,
                    tail,
                ];
                let spans_sl: &[&[u8]] = spans.as_slice();
                let r = checksum(spans_sl);
                proof {
                    let dv = spans_sl.deep_view();
                    assert(dv.len() == 6);
                    assert(dv[0] =~= src@);
                    assert(dv[1] =~= dst@);
                    assert(dv[2] =~= proto_pair@);
                    assert(dv[3] =~= len_pair@);
                    assert(dv[4] =~= head@);
                    assert(dv[5] =~= tail@);
                    lemma_spans_bytes6(dv);
                    assert(proto_pair@ =~= seq![0u8, ipv4_protocol(ipv4.bytes())]);
                    assert(len_pair@ =~= seq![u16_hi(seg_len), u16_lo(seg_len)]);
                    assert(spans_bytes(dv) =~= tcp_csum_input(
                        ipv4_source(ipv4.bytes()),
                        ipv4_destination(ipv4.bytes()),
                        ipv4_protocol(ipv4.bytes()),
                        seg_len,
                        self.bytes(),
                    ));
                }
                r
            },
        }
    }

    pub fn urgent_pointer(&self) -> (r: u16)
        requires
            self.bytes().len() >= 20,
        ensures
            r == tcp_urgent_pointer(self.bytes()),
    {
        read_be16(self.buffer, 18)
    }

    /// A lazy walk over the option block between the fixed header and the
    /// declared header end.
    pub fn options(&self) -> (r: TcpOptionIterator<'a>)
        requires
            self.wf(),
        ensures
            r.bytes() == self.bytes(),
            r.pos_spec() == 20,
            r.boundary() == tcp_header_len(self.bytes()),
            r.wf(),
    {
        TcpOptionIterator { buffer: self.buffer, pos: 20, data_offset: self.computed_data_offset() }
    }
}

/// One decoded TCP option: the variants this stack recognizes, and a raw
/// fallback (kind plus the bytes of the whole option) for every other
/// kind/length combination, so unknown options never abort the walk.
#[derive(Debug, Clone, Copy)]
pub enum TcpOption<'a> {
    Raw { option: u8, data: &'a [u8] },
    NoOp,
    Mss { size: u16 },
    WindowScale { shift: u8 },
    SackPermitted,
    Sack { blocks: [Option<(u32, u32)>; 4] },
    Timestamp { val: u32, ecr: u32 },
}

/// What one step of the option walk at `pos` covers: the option kind and its
/// total length, or `None` when the boundary is reached, an end-of-options
/// kind (0) is found, or a malformed length would cross the boundary.
pub open spec fn tcp_option_step(b: Seq<u8>, pos: int, boundary: int) -> Option<(u8, int)> {
    if pos >= boundary {
        None
    } else {
        let kind = b[pos];
        if kind == 0 {
            None
        } else if kind == 1 {
            Some((kind, 1))
        } else if boundary <= pos + 1 {
            None
        } else {
            let l = b[pos + 1] as int;
            if l < 2 || boundary < pos + l {
                None
            } else {
                Some((kind, l))
            }
        }
    }
}

/// Which decoded variant an option with the given kind and length yields
/// from the bytes at `pos`.
pub open spec fn tcp_option_matches<'a>(
    b: Seq<u8>,
    pos: int,
    kind: u8,
    l: int,
    o: TcpOption<'a>,
) -> bool {
    if kind == 1 {
        o is NoOp
    } else if kind == 2 && l == 4 {
        match o {
            TcpOption::Mss { size } => size == be16_at(b, pos + 2),
            _ => false,
        }
    } else if kind == 3 && l == 3 {
        match o {
            TcpOption::WindowScale { shift } => shift == b[pos + 2],
            _ => false,
        }
    } else if kind == 4 {
        o is SackPermitted
    } else if kind == 5 && l == 10 {
        match o {
            TcpOption::Sack { blocks } => blocks@ =~= seq![
                Some((be32_at(b, pos + 2), be32_at(b, pos + 6))),
                None,
                None,
                None,
            ],
            _ => false,
        }
    } else if kind == 5 && l == 18 {
        match o {
            TcpOption::Sack { blocks } => blocks@ =~= seq![
                Some((be32_at(b, pos + 2), be32_at(b, pos + 6))),
                Some((be32_at(b, pos + 10), be32_at(b, pos + 14))),
                None,
                None,
            ],
            _ => false,
        }
    } else if kind == 5 && l == 26 {
        match o {
            TcpOption::Sack { blocks } => blocks@ =~= seq![
                Some((be32_at(b, pos + 2), be32_at(b, pos + 6))),
                Some((be32_at(b, pos + 10), be32_at(b, pos + 14))),
                Some((be32_at(b, pos + 18), be32_at(b, pos + 22))),
                None,
            ],
            _ => false,
        }
    } else if kind == 5 && l == 34 {
        match o {
            TcpOption::Sack { blocks } => blocks@ =~= seq![
                Some((be32_at(b, pos + 2), be32_at(b, pos + 6))),
                Some((be32_at(b, pos + 10), be32_at(b, pos + 14))),
                Some((be32_at(b, pos + 18), be32_at(b, pos + 22))),
                Some((be32_at(b, pos + 26), be32_at(b, pos + 30))),
            ],
            _ => false,
        }
    } else if kind == 8 && l == 10 {
        match o {
            TcpOption::Timestamp { val, ecr } => val == be32_at(b, pos + 2) && ecr == be32_at(
                b,
                pos + 6,
            ),
            _ => false,
        }
    } else {
        match o {
            TcpOption::Raw { option, data } => option == kind && data@ == b.subrange(pos, pos + l),
            _ => false,
        }
    }
}

/// Restartable lazy walk over a TCP option block: two cursors over the
/// shared segment bytes.
#[derive(Debug, Clone, Copy)]
pub struct TcpOptionIterator<'a> {
    buffer: &'a [u8],
    pos: usize,
    data_offset: usize,
}

impl<'a> TcpOptionIterator<'a> {
    /// The underlying segment bytes.
    pub closed spec fn bytes(&self) -> Seq<u8> {
        self.buffer@
    }

    /// The current cursor.
    pub closed spec fn pos_spec(&self) -> int {
        self.pos as int
    }

    /// The declared end of the option block.
    pub closed spec fn boundary(&self) -> int {
        self.data_offset as int
    }

    pub open spec fn wf(&self) -> bool {
        self.boundary() <= self.bytes().len()
    }

    /// Yields the next decoded option and advances, or stops — without
    /// error — at the boundary, at an end-of-options kind, or at a
    /// malformed length that would cross the boundary.
    pub fn next(&mut self) -> (r: Option<TcpOption<'a>>)
        requires
            old(self).wf(),
        ensures
            final(self).wf(),
            final(self).bytes() == old(self).bytes(),
            final(self).boundary() == old(self).boundary(),
            match tcp_option_step(old(self).bytes(), old(self).pos_spec(), old(self).boundary()) {
                None => r is None,
                Some((kind, l)) => {
                    &&& final(self).pos_spec() == old(self).pos_spec() + l
                    &&& match r {
                        Some(o) => tcp_option_matches(
                            old(self).bytes(),
                            old(self).pos_spec(),
                            kind,
                            l,
                            o,
                        ),
                        None => false,
                    }
                },
            },
    {
        if self.pos < self.data_offset {
            let pos = self.pos;
            let option = self.buffer[pos];
            let len: usize = if option == 0 || option == 1 {
                1
            } else {
                if self.data_offset <= pos + 1 {
                    return None;
                }
                let len = self.buffer[pos + 1] as usize;
                if len < 2 {
                    return None;
                }
                len
            };
            if len > self.data_offset - pos {
                return None;
            }
            if option == 0 {
                return None;
            }
            self.pos = pos + len;
            let b = self.buffer;
            if option == 1 {
                Some(TcpOption::NoOp)
            } else if option == 2 && len == 4 {
                Some(TcpOption::Mss { size: read_be16(b, pos + 2) })
            } else if option == 3 && len == 3 {
                Some(TcpOption::WindowScale { shift: b[pos + 2] })
            } else if option == 4 {
                Some(TcpOption::SackPermitted)
            } else if option == 5 && len == 10 {
                let blocks = [Some((read_be32(b, pos + 2), read_be32(b, pos + 6))), None, None, None];
                Some(TcpOption::Sack { blocks })
            } else if option == 5 && len == 18 {
                let blocks = [
                    Some((read_be32(b, pos + 2), read_be32(b, pos + 6))),
                    Some((read_be32(b, pos + 10), read_be32(b, pos + 14))),
                    None,
                    None,
                ];
                Some(TcpOption::Sack { blocks })
            } else if option == 5 && len == 26 {
                let blocks = [
                    Some((read_be32(b, pos + 2), read_be32(b, pos + 6))),
                    Some((read_be32(b, pos + 10), read_be32(b, pos + 14))),
                    Some((read_be32(b, pos + 18), read_be32(b, pos + 22))),
                    None,
                ];
                Some(TcpOption::Sack { blocks })
            } else if option == 5 && len == 34 {
                let blocks = [
                    Some((read_be32(b, pos + 2), read_be32(b, pos + 6))),
                    Some((read_be32(b, pos + 10), read_be32(b, pos + 14))),
                    Some((read_be32(b, pos + 18), read_be32(b, pos + 22))),
                    Some((read_be32(b, pos + 26), read_be32(b, pos + 30))),
                ];
                Some(TcpOption::Sack { blocks })
            } else if option == 8 && len == 10 {
                Some(TcpOption::Timestamp {
                    val: read_be32(b, pos + 2),
                    ecr: read_be32(b, pos + 6),
                })
            } else {
                Some(TcpOption::Raw { option, data: slice_subrange(b, pos, pos + len) })
            }
        } else {
            None
        }
    }
}

/// The connection states of the TCP state machine. Only the path the
/// single-connection server drives (Closed, Listen, SynReceived,
/// Established, CloseWait, LastAck) is exercised; the remaining states are
/// kept in the vocabulary for extension.
#[derive(Debug, Copy, Clone, Eq, PartialEq, Structural)]
pub enum TcpState {
    Closed,
    Listen,
    SynSent,
    SynReceived,
    Established,
    FinWait1,
    FinWait2,
    CloseWait,
    Closing,
    LastAck,
    TimeWait,
}

/// Round trip: any builder state whose declared header (at least the fixed
/// 20 bytes) plus payload fit the buffer emits a segment the parser accepts,
/// with every field read back from the same bytes the setters wrote.
pub proof fn lemma_tcp_round_trip(p: TcpPdu)
    requires
        p.wf(),
        20 <= tcp_header_len(p.bytes()),
        tcp_header_len(p.bytes()) + p.payload_len() <= 1480,
    ensures
        tcp_valid(p.out_bytes()),
        tcp_source_port(p.out_bytes()) == tcp_source_port(p.bytes()),
        tcp_destination_port(p.out_bytes()) == tcp_destination_port(p.bytes()),
        tcp_sequence_number(p.out_bytes()) == tcp_sequence_number(p.bytes()),
        tcp_acknowledgement_number(p.out_bytes()) == tcp_acknowledgement_number(p.bytes()),
        tcp_data_offset(p.out_bytes()) == tcp_data_offset(p.bytes()),
        tcp_flags(p.out_bytes()) == tcp_flags(p.bytes()),
        tcp_window_size(p.out_bytes()) == tcp_window_size(p.bytes()),
        tcp_checksum(p.out_bytes()) == tcp_checksum(p.bytes()),
        tcp_urgent_pointer(p.out_bytes()) == tcp_urgent_pointer(p.bytes()),
        tcp_payload(p.out_bytes()) == p.bytes().subrange(
            tcp_header_len(p.bytes()),
            tcp_header_len(p.bytes()) + p.payload_len(),
        ),
{
    assert(tcp_payload(p.out_bytes()) =~= p.bytes().subrange(
        tcp_header_len(p.bytes()),
        tcp_header_len(p.bytes()) + p.payload_len(),
    ));
}


/// A segment whose checksum field holds the pseudo-header checksum of the
/// rest sums to zero together with its pseudo-header: the receive-side
/// validation identity, at the TCP layout.
pub proof fn lemma_tcp_checksum_validates(
    src: Seq<u8>,
    dst: Seq<u8>,
    proto: u8,
    seg_len: u16,
    b: Seq<u8>,
)
    requires
        b.len() >= 20,
        src.len() == 4,
        dst.len() == 4,
        tcp_checksum(b) == checksum_spec(tcp_csum_input(src, dst, proto, seg_len, b)),
    ensures
        checksum_spec(
            src + dst + seq![0u8, proto] + seq![u16_hi(seg_len), u16_lo(seg_len)] + b,
        ) == 0,
{
    let pre = src + dst + seq![0u8, proto] + seq![u16_hi(seg_len), u16_lo(seg_len)] + b.subrange(
        0,
        16,
    );
    let post = b.skip(18);
    let c = checksum_spec(pre + post);
    assert(tcp_csum_input(src, dst, proto, seg_len, b) =~= pre + post);
    assert((c / 256) as u8 == b[16] && (c % 256) as u8 == b[17]);
    crate::util::lemma_checksum_insert_middle(pre, post);
    assert(src + dst + seq![0u8, proto] + seq![u16_hi(seg_len), u16_lo(seg_len)] + b =~= pre
        + seq![(c / 256) as u8, (c % 256) as u8] + post);
}

} // verus!
