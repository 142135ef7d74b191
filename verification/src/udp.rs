//! UDP codec: fixed 8-byte header plus payload, with the pseudo-header
//! checksum and the zero-to-0xffff substitution the UDP convention reserves
//! for "no checksum".

use vstd::prelude::*;

use vstd::slice::slice_subrange;

use crate::ip::ipv4_destination;
use crate::ip::ipv4_protocol;
use crate::ip::ipv4_source;
use crate::ip::Ip;
use crate::ip::IpPseudoHeader;
use crate::util::checksum;
use crate::util::checksum_spec;
use crate::util::lemma_spans_bytes6;
use crate::util::spans_bytes;
use crate::wire::be16_at;
use crate::wire::read_be16;
use crate::wire::unchanged_outside;
use crate::wire::write_be16;
use crate::wire::write_bytes;
use crate::{Error, PduResult};

verus! {

/// Source port field (offset 0).
pub open spec fn udp_source_port(b: Seq<u8>) -> u16 {
    be16_at(b, 0)
}

/// Destination port field (offset 2).
pub open spec fn udp_destination_port(b: Seq<u8>) -> u16 {
    be16_at(b, 2)
}

/// Length field (offset 4): header plus payload in bytes.
pub open spec fn udp_length(b: Seq<u8>) -> u16 {
    be16_at(b, 4)
}

/// Checksum field (offset 6).
pub open spec fn udp_checksum(b: Seq<u8>) -> u16 {
    be16_at(b, 6)
}

/// A received buffer must hold the full fixed header.
pub open spec fn udp_valid(b: Seq<u8>) -> bool {
    b.len() >= 8
}

/// What the UDP checksum is computed over: the pseudo-header (addresses,
/// zero, protocol, then the declared length taken from the length field),
/// the header with its checksum field skipped, and the payload.
pub open spec fn udp_csum_input(src: Seq<u8>, dst: Seq<u8>, proto: u8, b: Seq<u8>) -> Seq<u8> {
    src + dst + seq![0u8, proto] + b.subrange(4, 6) + b.subrange(0, 6) + b.skip(8)
}

/// The checksum value actually transmitted: a computed zero is replaced by
/// 0xffff, since zero on the wire means "no checksum".
pub open spec fn udp_wire_checksum(c: u16) -> u16 {
    if c == 0 {
        0xffff
    } else {
        c
    }
}

/// Builder for one outbound UDP datagram.
pub struct UdpPdu {
    buffer: Vec<u8>,
    inner_size: usize,
}

impl UdpPdu {
    /// The full fixed-capacity scratch buffer.
    pub closed spec fn bytes(&self) -> Seq<u8> {
        self.buffer@
    }

    /// Length of the payload currently attached.
    pub closed spec fn payload_len(&self) -> int {
        self.inner_size as int
    }

    pub open spec fn wf(&self) -> bool {
        &&& self.bytes().len() == 1480
        &&& 0 <= self.payload_len() <= 1472
    }

    /// The datagram `as_bytes` returns: header plus payload.
    pub open spec fn out_bytes(&self) -> Seq<u8> {
        self.bytes().take(8 + self.payload_len())
    }

    pub fn new() -> (r: UdpPdu)
        ensures
            r.wf(),
            r.payload_len() == 0,
            forall|k: int| 0 <= k < 1480 ==> r.bytes()[k] == 0,
    {
        UdpPdu { buffer: vec![0u8; 1480], inner_size: 0 }
    }

    /// The finished datagram: exactly the header plus the attached payload,
    /// never more than the layer's 1480-byte budget.
    pub fn as_bytes(&self) -> (r: &[u8])
        requires
            self.wf(),
        ensures
            r@ == self.out_bytes(),
            r@.len() == 8 + self.payload_len(),
            r@.len() <= 1480,
    {
        slice_subrange(self.buffer.as_slice(), 0, 8 + self.inner_size)
    }

    pub fn source_port(&mut self, value: u16)
        requires
            old(self).wf(),
        ensures
            unchanged_outside(old(self).bytes(), final(self).bytes(), 0, 2),
            udp_source_port(final(self).bytes()) == value,
            final(self).payload_len() == old(self).payload_len(),
            final(self).wf(),
    {
        write_be16(&mut self.buffer, 0, value);
    }

    pub fn destination_port(&mut self, value: u16)
        requires
            old(self).wf(),
        ensures
            unchanged_outside(old(self).bytes(), final(self).bytes(), 2, 4),
            udp_destination_port(final(self).bytes()) == value,
            final(self).payload_len() == old(self).payload_len(),
            final(self).wf(),
    {
        write_be16(&mut self.buffer, 2, value);
    }

    pub fn length(&mut self, value: u16)
        requires
            old(self).wf(),
        ensures
            unchanged_outside(old(self).bytes(), final(self).bytes(), 4, 6),
            udp_length(final(self).bytes()) == value,
            final(self).payload_len() == old(self).payload_len(),
            final(self).wf(),
    {
        write_be16(&mut self.buffer, 4, value);
    }

    /// Rewrites the length field from the current payload size.
    fn compute_length(&mut self)
        requires
            old(self).wf(),
        ensures
            unchanged_outside(old(self).bytes(), final(self).bytes(), 4, 6),
            udp_length(final(self).bytes()) == 8 + old(self).payload_len(),
            final(self).payload_len() == old(self).payload_len(),
            final(self).wf(),
    {
        let value = (8 + self.inner_size) as u16;
        write_be16(&mut self.buffer, 4, value);
    }

    pub fn checksum(&mut self, value: u16)
        requires
            old(self).wf(),
        ensures
            unchanged_outside(old(self).bytes(), final(self).bytes(), 6, 8),
            udp_checksum(final(self).bytes()) == value,
            final(self).payload_len() == old(self).payload_len(),
            final(self).wf(),
    {
        write_be16(&mut self.buffer, 6, value);
    }

    /// Computes the pseudo-header checksum and writes it into the checksum
    /// field, transmitting 0xffff in place of a computed zero. Must be
    /// called after every other field and the payload are set.
    pub fn compute_checksum(&mut self, ip: &IpPseudoHeader)
        requires
            old(self).wf(),
        ensures
            unchanged_outside(old(self).bytes(), final(self).bytes(), 6, 8),
            final(self).payload_len() == old(self).payload_len(),
            final(self).wf(),
            match ip {
                IpPseudoHeader::Ipv4(ph) => udp_checksum(final(self).out_bytes())
                    == udp_wire_checksum(
                    checksum_spec(
                        udp_csum_input(
                            ph.source_address@,
                            ph.destination_address@,
                            ph.protocol,
                            final(self).out_bytes(),
                        ),
                    ),
                ),
            },
    {
        let end = 8 + self.inner_size;
        match ip {
            IpPseudoHeader::Ipv4(ipv4) => {
                let proto_pair: [u8; 2] = [0x00, ipv4.protocol];
                let len_span: &[u8] = slice_subrange(self.buffer.as_slice(), 4, 6);
                let head: &[u8] = slice_subrange(self.buffer.as_slice(), 0, 6);
                let pay: &[u8] = slice_subrange(self.buffer.as_slice(), 8, end);
                let spans: [&[u8]; 6] = [
                    ipv4.source_address.as_slice(),
                    ipv4.destination_address.as_slice(),
                    proto_pair.as_slice(),
                    len_span,
                    head,
                    pay,
                ];
                let spans_sl: &[&[u8]] = spans.as_slice();
                let mut csum = checksum(spans_sl);
                proof {
                    let dv = spans_sl.deep_view();
                    assert(dv.len() == 6);
                    assert(dv[0] =~= ipv4.source_address@);
                    assert(dv[1] =~= ipv4.destination_address@);
                    assert(dv[2] =~= proto_pair@);
                    assert(dv[3] =~= len_span@);
                    assert(dv[4] =~= head@);
                    assert(dv[5] =~= pay@);
                    lemma_spans_bytes6(dv);
                    assert(proto_pair@ =~= seq![0u8, ipv4.protocol]);
                    assert(spans_bytes(dv) =~= udp_csum_input(
                        ipv4.source_address@,
                        ipv4.destination_address@,
                        ipv4.protocol,
                        old(self).out_bytes(),
                    ));
                }
                if csum == 0 {
                    csum = 0xFFFF
                }
                write_be16(&mut self.buffer, 6, csum);
                proof {
                    assert(udp_csum_input(
                        ipv4.source_address@,
                        ipv4.destination_address@,
                        ipv4.protocol,
                        final(self).out_bytes(),
                    ) =~= udp_csum_input(
                        ipv4.source_address@,
                        ipv4.destination_address@,
                        ipv4.protocol,
                        old(self).out_bytes(),
                    ));
                }
            },
        }
    }

    /// Attaches the payload and recomputes the length field; fails with
    /// `Oversized` (leaving the datagram unchanged) when it exceeds the
    /// 1472-byte budget.
    pub fn inner(&mut self, value: &[u8]) -> (r: PduResult<()>)
        requires
            old(self).wf(),
        ensures
            final(self).wf(),
            value@.len() > 1472 ==> r == PduResult::<()>::Err(Error::Oversized) && *final(self)
                == *old(self),
            value@.len() <= 1472 ==> {
                &&& r == PduResult::<()>::Ok(())
                &&& final(self).payload_len() == value@.len()
                &&& udp_length(final(self).bytes()) == 8 + value@.len()
                &&& final(self).out_bytes().skip(8) == value@
                &&& forall|k: int|
                    0 <= k < 1480 && !(4 <= k < 6) && !(8 <= k < 8 + value@.len()) ==> final(self).bytes()[k] == old(self).bytes()[k]
            },
    {
        let len = value.len();
        if len > 1472 {
            return Err(Error::Oversized);
        }
        self.inner_size = len;
        self.compute_length();
        write_bytes(&mut self.buffer, 8, value);
        proof {
            assert(final(self).out_bytes().skip(8) =~= value@);
        }
        Ok(())
    }
}

/// Payload of a received UDP datagram, raw because this stack echoes it
/// without interpreting it.
#[derive(Debug, Clone, Copy)]
pub enum Udp<'a> {
    Raw(&'a [u8]),
}

/// Validating view over a received UDP datagram.
#[derive(Debug, Clone, Copy)]
pub struct UdpParser<'a> {
    buffer: &'a [u8],
}

impl<'a> UdpParser<'a> {
    /// The underlying received bytes.
    pub closed spec fn bytes(&self) -> Seq<u8> {
        self.buffer@
    }

    pub open spec fn wf(&self) -> bool {
        udp_valid(self.bytes())
    }

    /// Accepts exactly the buffers of at least 8 bytes; shorter ones are
    /// `Truncated`.
    pub fn parse(buffer: &'a [u8]) -> (r: PduResult<UdpParser<'a>>)
        ensures
            match r {
                Ok(p) => udp_valid(buffer@) && p.bytes() == buffer@ && p.wf(),
                Err(e) => !udp_valid(buffer@) && e == Error::Truncated,
            },
    {
        if buffer.len() < 8 {
            return Err(Error::Truncated);
        }
        Ok(UdpParser { buffer })
    }

    /// The payload as bounded by the declared length field (not the physical
    /// buffer remainder); a declared length that is shorter than the header
    /// or longer than the buffer is reported as `Malformed`.
    pub fn inner(&self) -> (r: PduResult<Udp<'a>>)
        requires
            self.wf(),
        ensures
            match r {
                Ok(i) => 8 <= udp_length(self.bytes()) <= self.bytes().len() && match i {
                    Udp::Raw(s) => s@ == self.bytes().subrange(8, udp_length(self.bytes()) as int),
                },
                Err(e) => !(8 <= udp_length(self.bytes()) <= self.bytes().len()) && e
                    == Error::Malformed,
            },
    {
        self.clone().into_inner()
    }

    /// The payload as bounded by the declared length field (not the physical
    /// buffer remainder); a declared length that is shorter than the header
    /// or longer than the buffer is reported as `Malformed`.
    pub fn into_inner(self) -> (r: PduResult<Udp<'a>>)
        requires
            self.wf(),
        ensures
            match r {
                Ok(i) => 8 <= udp_length(self.bytes()) <= self.bytes().len() && match i {
                    Udp::Raw(s) => s@ == self.bytes().subrange(8, udp_length(self.bytes()) as int),
                },
                Err(e) => !(8 <= udp_length(self.bytes()) <= self.bytes().len()) && e
                    == Error::Malformed,
            },
    {
        let declared = self.length() as usize;
        if declared < 8 || declared > self.buffer.len() {
            return Err(Error::Malformed);
        }
        let rest = slice_subrange(self.buffer, 8, declared);
        Ok(Udp::Raw(rest))
    }

    pub fn source_port(&self) -> (r: u16)
        requires
            self.wf(),
        ensures
            r == udp_source_port(self.bytes()),
    {
        read_be16(self.buffer, 0)
    }

    pub fn destination_port(&self) -> (r: u16)
        requires
            self.wf(),
        ensures
            r == udp_destination_port(self.bytes()),
    {
        read_be16(self.buffer, 2)
    }

    pub fn length(&self) -> (r: u16)
        requires
            self.wf(),
        ensures
            r == udp_length(self.bytes()),
    {
        read_be16(self.buffer, 4)
    }

    pub fn checksum(&self) -> (r: u16)
        requires
            self.wf(),
        ensures
            r == udp_checksum(self.bytes()),
    {
        read_be16(self.buffer, 6)
    }

    /// Recomputes the pseudo-header checksum over the received datagram,
    /// with the same zero-to-0xffff substitution the sender applies.
    pub fn computed_checksum(&self, ip: &Ip<'_>) -> (r: u16)
        requires
            self.wf(),
            match ip {
                Ip::Ipv4(p) => p.wf(),
            },
        ensures
            match ip {
                Ip::Ipv4(p) => r == udp_wire_checksum(
                    checksum_spec(
                        udp_csum_input(
                            ipv4_source(p.bytes()),
                            ipv4_destination(p.bytes()),
                            ipv4_protocol(p.bytes()),
                            self.bytes(),
                        ),
                    ),
                ),
            },
    {
        match ip {
            Ip::Ipv4(ipv4) => {
                let src = ipv4.source_address();
                let dst = ipv4.destination_address();
                let proto_pair: [u8; 2] = [0x00, ipv4.protocol()];
                let len_span: &[u8] = slice_subrange(self.buffer, 4, 6);
                let head: &[u8] = slice_subrange(self.buffer, 0, 6);
                let pay: &[u8] = slice_subrange(self.buffer, 8, self.buffer.len());
                let spans: [&[u8]; 6] = [
                    src.as_slice(),
                    dst.as_slice(),
                    proto_pair.as_slice(),
                    len_span,
                    head,
                    pay,
                ];
                let spans_sl: &[&[u8]] = spans.as_slice();
                let csum = checksum(spans_sl);
                proof {
                    let dv = spans_sl.deep_view();
                    assert(dv.len() == 6);
                    assert(dv[0] =~= src@);
                    assert(dv[1] =~= dst@);
                    assert(dv[2] =~= proto_pair@);
                    assert(dv[3] =~= len_span@);
                    assert(dv[4] =~= head@);
                    assert(dv[5] =~= pay@);
                    lemma_spans_bytes6(dv);
                    assert(proto_pair@ =~= seq![0u8, ipv4_protocol(ipv4.bytes())]);
                    assert(spans_bytes(dv) =~= udp_csum_input(
                        ipv4_source(ipv4.bytes()),
                        ipv4_destination(ipv4.bytes()),
                        ipv4_protocol(ipv4.bytes()),
                        self.bytes(),
                    ));
                }
                if csum == 0 {
                    0xFFFF
                } else {
                    csum
                }
            },
        }
    }
}

/// Round trip: a builder's output always satisfies the parser's validity
/// bound, and the parser reads back the ports, length and checksum the
/// builder wrote.
pub proof fn lemma_udp_round_trip(p: UdpPdu)
    requires
        p.wf(),
    ensures
        udp_valid(p.out_bytes()),
        udp_source_port(p.out_bytes()) == udp_source_port(p.bytes()),
        udp_destination_port(p.out_bytes()) == udp_destination_port(p.bytes()),
        udp_length(p.out_bytes()) == udp_length(p.bytes()),
        udp_checksum(p.out_bytes()) == udp_checksum(p.bytes()),
        p.out_bytes().skip(8) == p.bytes().subrange(8, 8 + p.payload_len()),
{
    assert(p.out_bytes().skip(8) =~= p.bytes().subrange(8, 8 + p.payload_len()));
}


/// A datagram whose checksum field holds the transmitted pseudo-header
/// checksum — the zero-to-0xffff substitution included — sums to zero
/// together with its pseudo-header: the receive-side validation identity,
/// at the UDP layout.
pub proof fn lemma_udp_checksum_validates(src: Seq<u8>, dst: Seq<u8>, proto: u8, b: Seq<u8>)
    requires
        b.len() >= 8,
        src.len() == 4,
        dst.len() == 4,
        udp_checksum(b) == udp_wire_checksum(checksum_spec(udp_csum_input(src, dst, proto, b))),
    ensures
        checksum_spec(src + dst + seq![0u8, proto] + b.subrange(4, 6) + b) == 0,
{
    let pre = src + dst + seq![0u8, proto] + b.subrange(4, 6) + b.subrange(0, 6);
    let post = b.skip(8);
    let input = pre + post;
    let c = checksum_spec(input);
    assert(udp_csum_input(src, dst, proto, b) =~= input);
    let total = src + dst + seq![0u8, proto] + b.subrange(4, 6) + b;
    if c != 0 {
        assert((c / 256) as u8 == b[6] && (c % 256) as u8 == b[7]);
        crate::util::lemma_checksum_insert_middle(pre, post);
        assert(total =~= pre + seq![(c / 256) as u8, (c % 256) as u8] + post);
    } else {
        // The computed zero was transmitted as 0xffff; the extra 0xffff word
        // leaves the folded sum congruent, so validation still yields zero.
        assert(b[6] == 0xff && b[7] == 0xff);
        let s = crate::util::word_sum(input);
        crate::util::lemma_word_sum_nonneg(input);
        assert(crate::util::fold_carry(s) == 0xffff);
        assert(total =~= pre + seq![0xffu8, 0xffu8] + post);
        crate::util::lemma_word_sum_append(pre, post);
        crate::util::lemma_word_sum_append(pre, seq![0xffu8, 0xffu8]);
        assert((pre + seq![0xffu8, 0xffu8]).len() % 2 == 0);
        crate::util::lemma_word_sum_append(pre + seq![0xffu8, 0xffu8], post);
        assert(crate::util::word_sum(seq![0xffu8, 0xffu8]) == 0xffff) by {
            assert(seq![0xffu8, 0xffu8].skip(2) =~= Seq::<u8>::empty());
            reveal_with_fuel(crate::util::word_sum, 3);
        }
        assert(crate::util::word_sum(total) == s + 0xffff);
        crate::util::lemma_fold_carry_add(s, 0xffff);
        assert(crate::util::fold_carry(0xffffint + 0xffffint) == 0xffff);
    }
}

} // verus!
