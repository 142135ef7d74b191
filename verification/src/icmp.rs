//! ICMP codec: fixed 4-byte header (type, code, 16-bit checksum) followed by
//! the payload. The checksum covers header and payload with no pseudo-header.

use vstd::prelude::*;

use vstd::slice::slice_subrange;

use crate::util::checksum;
use crate::util::checksum_spec;
use crate::util::lemma_checksum_insert_middle;
use crate::util::lemma_spans_bytes2;
use crate::util::spans_bytes;
use crate::wire::be16_at;
use crate::wire::read_be16;
use crate::wire::unchanged_outside;
use crate::wire::write_be16;
use crate::wire::write_bytes;
use crate::{Error, PduResult};

verus! {

pub const ICMP_ECHO_REPLY: u8 = 0;

pub const ICMP_ECHO_REQUEST: u8 = 8;

/// Message type field (offset 0).
pub open spec fn icmp_type(b: Seq<u8>) -> u8 {
    b[0]
}

/// Message code field (offset 1).
pub open spec fn icmp_code(b: Seq<u8>) -> u8 {
    b[1]
}

/// Checksum field (offset 2).
pub open spec fn icmp_checksum(b: Seq<u8>) -> u16 {
    be16_at(b, 2)
}

/// Everything after the fixed 4-byte header.
pub open spec fn icmp_payload(b: Seq<u8>) -> Seq<u8> {
    b.skip(4)
}

/// What the ICMP checksum is computed over: the header with its checksum
/// field skipped, then the payload.
pub open spec fn icmp_csum_input(b: Seq<u8>) -> Seq<u8> {
    b.subrange(0, 2) + b.skip(4)
}

/// A received buffer must hold the header and at least a minimal 4-byte
/// payload, as an echo message carries.
pub open spec fn icmp_valid(b: Seq<u8>) -> bool {
    b.len() >= 8
}

/// A message whose checksum field holds the checksum of the rest sums to
/// zero: the receive-side validation identity, at the ICMP layout.
pub proof fn lemma_icmp_checksum_validates(b: Seq<u8>)
    requires
        b.len() >= 4,
        icmp_checksum(b) == checksum_spec(icmp_csum_input(b)),
    ensures
        checksum_spec(b) == 0,
{
    let pre = b.subrange(0, 2);
    let post = b.skip(4);
    let c = checksum_spec(pre + post);
    lemma_checksum_insert_middle(pre, post);
    assert(b =~= pre + seq![(c / 256) as u8, (c % 256) as u8] + post);
}

/// Builder for one outbound ICMP message.
pub struct IcmpPdu {
    buffer: Vec<u8>,
    inner_size: usize,
}

impl IcmpPdu {
    /// The full fixed-capacity scratch buffer.
    pub closed spec fn bytes(&self) -> Seq<u8> {
        self.buffer@
    }

    /// Length of the payload currently attached.
    pub closed spec fn payload_len(&self) -> int {
        self.inner_size as int
    }

    pub open spec fn wf(&self) -> bool {
        &&& self.bytes().len() == 1480
        &&& 0 <= self.payload_len() <= 1476
    }

    /// The message `as_bytes` returns: header plus payload.
    pub open spec fn out_bytes(&self) -> Seq<u8> {
        self.bytes().take(4 + self.payload_len())
    }

    pub fn new() -> (r: IcmpPdu)
        ensures
            r.wf(),
            r.payload_len() == 0,
            forall|k: int| 0 <= k < 1480 ==> r.bytes()[k] == 0,
    {
        IcmpPdu { buffer: vec![0u8; 1480], inner_size: 0 }
    }

    /// The finished message: exactly the header plus the attached payload,
    /// never more than the layer's 1480-byte budget.
    pub fn as_bytes(&self) -> (r: &[u8])
        requires
            self.wf(),
        ensures
            r@ == self.out_bytes(),
            r@.len() == 4 + self.payload_len(),
            r@.len() <= 1480,
    {
        slice_subrange(self.buffer.as_slice(), 0, 4 + self.inner_size)
    }

    pub fn message_type(&mut self, value: u8)
        requires
            old(self).wf(),
        ensures
            unchanged_outside(old(self).bytes(), final(self).bytes(), 0, 1),
            icmp_type(final(self).bytes()) == value,
            final(self).payload_len() == old(self).payload_len(),
            final(self).wf(),
    {
        self.buffer.set(0, value);
    }

    pub fn message_code(&mut self, value: u8)
        requires
            old(self).wf(),
        ensures
            unchanged_outside(old(self).bytes(), final(self).bytes(), 1, 2),
            icmp_code(final(self).bytes()) == value,
            final(self).payload_len() == old(self).payload_len(),
            final(self).wf(),
    {
        self.buffer.set(1, value);
    }

    pub fn checksum(&mut self, value: u16)
        requires
            old(self).wf(),
        ensures
            unchanged_outside(old(self).bytes(), final(self).bytes(), 2, 4),
            icmp_checksum(final(self).bytes()) == value,
            final(self).payload_len() == old(self).payload_len(),
            final(self).wf(),
    {
        write_be16(&mut self.buffer, 2, value);
    }

    /// Computes the checksum over the header (checksum field skipped) and the
    /// attached payload, and writes it into the checksum field. Must be
    /// called after every other field and the payload are set.
    pub fn compute_checksum(&mut self)
        requires
            old(self).wf(),
        ensures
            unchanged_outside(old(self).bytes(), final(self).bytes(), 2, 4),
            final(self).payload_len() == old(self).payload_len(),
            final(self).wf(),
            icmp_checksum(final(self).out_bytes()) == checksum_spec(
                icmp_csum_input(final(self).out_bytes()),
            ),
    {
        let end = 4 + self.inner_size;
        let head: &[u8] = slice_subrange(self.buffer.as_slice(), 0, 2);
        let pay: &[u8] = slice_subrange(self.buffer.as_slice(), 4, end);
        let spans: [&[u8]; 2] = [head, pay];
        let spans_sl: &[&[u8]] = spans.as_slice();
        let c = checksum(spans_sl);
        proof {
            let dv = spans_sl.deep_view();
            assert(dv.len() == 2);
            assert(dv[0] =~= head@);
            assert(dv[1] =~= pay@);
            lemma_spans_bytes2(dv);
            assert(spans_bytes(dv) =~= icmp_csum_input(old(self).out_bytes()));
        }
        write_be16(&mut self.buffer, 2, c);
        proof {
            assert(icmp_csum_input(final(self).out_bytes()) =~= icmp_csum_input(
                old(self).out_bytes(),
            ));
        }
    }

    /// Attaches the payload; fails with `Oversized` (leaving the message
    /// unchanged) when it exceeds the 1476-byte budget.
    pub fn inner(&mut self, value: &[u8]) -> (r: PduResult<()>)
        requires
            old(self).wf(),
        ensures
            final(self).wf(),
            value@.len() > 1476 ==> r == PduResult::<()>::Err(Error::Oversized) && *final(self)
                == *old(self),
            value@.len() <= 1476 ==> r == PduResult::<()>::Ok(()) && final(self).payload_len()
                == value@.len() && unchanged_outside(
                old(self).bytes(),
                final(self).bytes(),
                4,
                4 + value@.len() as int,
            ) && icmp_payload(final(self).out_bytes()) == value@,
    {
        let len = value.len();
        if len > 1476 {
            return Err(Error::Oversized);
        }
        self.inner_size = len;
        write_bytes(&mut self.buffer, 4, value);
        proof {
            assert(icmp_payload(final(self).out_bytes()) =~= value@);
        }
        Ok(())
    }
}

/// Payload of a received ICMP message, raw because this stack never decodes
/// deeper than the echo payload it hands back.
#[derive(Debug, Clone, Copy)]
pub enum Icmp<'a> {
    Raw(&'a [u8]),
}

/// Validating view over a received ICMP message.
#[derive(Debug, Clone, Copy)]
pub struct IcmpParser<'a> {
    buffer: &'a [u8],
}

impl<'a> IcmpParser<'a> {
    /// The underlying received bytes.
    pub closed spec fn bytes(&self) -> Seq<u8> {
        self.buffer@
    }

    pub open spec fn wf(&self) -> bool {
        icmp_valid(self.bytes())
    }

    /// Accepts exactly the buffers of at least 8 bytes; shorter ones are
    /// `Truncated`.
    pub fn parse(buffer: &'a [u8]) -> (r: PduResult<IcmpParser<'a>>)
        ensures
            match r {
                Ok(p) => icmp_valid(buffer@) && p.bytes() == buffer@ && p.wf(),
                Err(e) => !icmp_valid(buffer@) && e == Error::Truncated,
            },
    {
        if buffer.len() < 8 {
            return Err(Error::Truncated);
        }
        Ok(IcmpParser { buffer })
    }

    /// The payload after the fixed header, as raw bytes.
    pub fn inner(&self) -> (r: PduResult<Icmp<'a>>)
        requires
            self.wf(),
        ensures
            match r {
                Ok(i) => match i {
                    Icmp::Raw(s) => s@ == icmp_payload(self.bytes()),
                },
                Err(_) => false,
            },
    {
        self.clone().into_inner()
    }

    /// The payload after the fixed header, as raw bytes.
    pub fn into_inner(self) -> (r: PduResult<Icmp<'a>>)
        requires
            self.wf(),
        ensures
            match r {
                Ok(i) => match i {
                    Icmp::Raw(s) => s@ == icmp_payload(self.bytes()),
                },
                Err(_) => false,
            },
    {
        let rest = slice_subrange(self.buffer, 4, self.buffer.len());
        proof {
            assert(rest@ =~= icmp_payload(self.bytes()));
        }
        Ok(Icmp::Raw(rest))
    }

    pub fn message_type(&self) -> (r: u8)
        requires
            self.wf(),
        ensures
            r == icmp_type(self.bytes()),
    {
        self.buffer[0]
    }

    pub fn message_code(&self) -> (r: u8)
        requires
            self.wf(),
        ensures
            r == icmp_code(self.bytes()),
    {
        self.buffer[1]
    }

    pub fn checksum(&self) -> (r: u16)
        requires
            self.wf(),
        ensures
            r == icmp_checksum(self.bytes()),
    {
        read_be16(self.buffer, 2)
    }

    /// Recomputes the checksum over the received header (checksum field
    /// skipped) and payload; a valid message stores exactly this value.
    pub fn computed_checksum(&self) -> (r: u16)
        requires
            self.wf(),
        ensures
            r == checksum_spec(icmp_csum_input(self.bytes())),
    {
        let head: &[u8] = slice_subrange(self.buffer, 0, 2);
        let pay: &[u8] = slice_subrange(self.buffer, 4, self.buffer.len());
        let spans: [&[u8]; 2] = [head, pay];
        let spans_sl: &[&[u8]] = spans.as_slice();
        let r = checksum(spans_sl);
        proof {
            let dv = spans_sl.deep_view();
            assert(dv.len() == 2);
            assert(dv[0] =~= head@);
            assert(dv[1] =~= pay@);
            lemma_spans_bytes2(dv);
            assert(spans_bytes(dv) =~= icmp_csum_input(self.bytes()));
        }
        r
    }
}

/// Round trip: a builder's output always satisfies the parser's validity
/// bound once it carries the minimal echo payload, and the parser reads back
/// the header fields and payload the builder wrote.
pub proof fn lemma_icmp_round_trip(p: IcmpPdu)
    requires
        p.wf(),
        p.payload_len() >= 4,
    ensures
        icmp_valid(p.out_bytes()),
        icmp_type(p.out_bytes()) == icmp_type(p.bytes()),
        icmp_code(p.out_bytes()) == icmp_code(p.bytes()),
        icmp_checksum(p.out_bytes()) == icmp_checksum(p.bytes()),
        icmp_payload(p.out_bytes()) == p.bytes().subrange(4, 4 + p.payload_len()),
{
    assert(icmp_payload(p.out_bytes()) =~= p.bytes().subrange(4, 4 + p.payload_len()));
}

} // verus!
