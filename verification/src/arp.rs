//! ARP codec: fixed 28-byte ARPv4-over-Ethernet messages. The builder
//! pre-fills the hardware/protocol types and lengths this stack speaks
//! (Ethernet, IPv4); the parser enforces them.

use vstd::prelude::*;

use crate::wire::be16_at;
use crate::wire::write_be16;
use crate::wire::write_bytes;
use crate::wire::read_be16;
use crate::wire::unchanged_outside;
use crate::{Error, PduResult};

verus! {

pub const ARP_OP_REQUEST: u16 = 1;

pub const ARP_OP_REPLY: u16 = 2;

/// Hardware type field (offset 0); 1 means Ethernet.
pub open spec fn arp_hardware_type(b: Seq<u8>) -> u16 {
    be16_at(b, 0)
}

/// Protocol type field (offset 2); 0x0800 means IPv4.
pub open spec fn arp_protocol_type(b: Seq<u8>) -> u16 {
    be16_at(b, 2)
}

/// Hardware address length field (offset 4).
pub open spec fn arp_hardware_length(b: Seq<u8>) -> u8 {
    b[4]
}

/// Protocol address length field (offset 5).
pub open spec fn arp_protocol_length(b: Seq<u8>) -> u8 {
    b[5]
}

/// Opcode field (offset 6): request is 1, reply is 2.
pub open spec fn arp_opcode(b: Seq<u8>) -> u16 {
    be16_at(b, 6)
}

/// Sender hardware address (offsets 8..14).
pub open spec fn arp_sender_hardware(b: Seq<u8>) -> Seq<u8> {
    b.subrange(8, 14)
}

/// Sender protocol address (offsets 14..18).
pub open spec fn arp_sender_protocol(b: Seq<u8>) -> Seq<u8> {
    b.subrange(14, 18)
}

/// Target hardware address (offsets 18..24).
pub open spec fn arp_target_hardware(b: Seq<u8>) -> Seq<u8> {
    b.subrange(18, 24)
}

/// Target protocol address (offsets 24..28).
pub open spec fn arp_target_protocol(b: Seq<u8>) -> Seq<u8> {
    b.subrange(24, 28)
}

/// A buffer parses as ARP when it holds the full fixed message and declares
/// the 6-byte hardware / 4-byte protocol addresses this stack supports.
pub open spec fn arp_valid(b: Seq<u8>) -> bool {
    &&& b.len() >= 28
    &&& arp_hardware_length(b) == 6
    &&& arp_protocol_length(b) == 4
}

/// The error a failing ARP parse reports: short buffers are `Truncated`,
/// unsupported address sizes `Malformed`.
pub open spec fn arp_parse_error(b: Seq<u8>) -> Error {
    if b.len() < 28 {
        Error::Truncated
    } else {
        Error::Malformed
    }
}

/// Builder for one outbound ARP message.
pub struct ArpPdu {
    buffer: Vec<u8>,
}

impl ArpPdu {
    /// The 28 bytes of the message being built.
    pub closed spec fn bytes(&self) -> Seq<u8> {
        self.buffer@
    }

    pub open spec fn wf(&self) -> bool {
        self.bytes().len() == 28
    }

    /// A fresh message with hardware type 1 (Ethernet), protocol type 0x0800
    /// (IPv4), and the 6/4 address lengths pre-filled; all other fields zero.
    pub fn new() -> (r: ArpPdu)
        ensures
            r.wf(),
            arp_hardware_type(r.bytes()) == 1,
            arp_protocol_type(r.bytes()) == 0x0800,
            arp_hardware_length(r.bytes()) == 6,
            arp_protocol_length(r.bytes()) == 4,
            arp_valid(r.bytes()),
            forall|k: int| 6 <= k < 28 ==> r.bytes()[k] == 0,
    {
        let mut arp_pdu = ArpPdu { buffer: vec![0u8; 28] };
        arp_pdu.hardware_type(0x0001);
        arp_pdu.protocol_type(0x0800);
        arp_pdu.hardware_length(0x06);
        arp_pdu.protocol_length(0x04);
        arp_pdu
    }

    /// The finished message: exactly the 28 header bytes.
    pub fn as_bytes(&self) -> (r: &[u8])
        requires
            self.wf(),
        ensures
            r@ == self.bytes(),
            r@.len() == 28,
    {
        self.buffer.as_slice()
    }

    pub fn hardware_type(&mut self, value: u16)
        requires
            old(self).wf(),
        ensures
            unchanged_outside(old(self).bytes(), final(self).bytes(), 0, 2),
            arp_hardware_type(final(self).bytes()) == value,
            final(self).wf(),
    {
        write_be16(&mut self.buffer, 0, value);
    }

    pub fn protocol_type(&mut self, value: u16)
        requires
            old(self).wf(),
        ensures
            unchanged_outside(old(self).bytes(), final(self).bytes(), 2, 4),
            arp_protocol_type(final(self).bytes()) == value,
            final(self).wf(),
    {
        write_be16(&mut self.buffer, 2, value);
    }

    pub fn hardware_length(&mut self, value: u8)
        requires
            old(self).wf(),
        ensures
            unchanged_outside(old(self).bytes(), final(self).bytes(), 4, 5),
            arp_hardware_length(final(self).bytes()) == value,
            final(self).wf(),
    {
        self.buffer.set(4, value);
    }

    pub fn protocol_length(&mut self, value: u8)
        requires
            old(self).wf(),
        ensures
            unchanged_outside(old(self).bytes(), final(self).bytes(), 5, 6),
            arp_protocol_length(final(self).bytes()) == value,
            final(self).wf(),
    {
        self.buffer.set(5, value);
    }

    pub fn opcode(&mut self, value: u16)
        requires
            old(self).wf(),
        ensures
            unchanged_outside(old(self).bytes(), final(self).bytes(), 6, 8),
            arp_opcode(final(self).bytes()) == value,
            final(self).wf(),
    {
        write_be16(&mut self.buffer, 6, value);
    }

    pub fn sender_hardware_address(&mut self, value: [u8; 6])
        requires
            old(self).wf(),
        ensures
            unchanged_outside(old(self).bytes(), final(self).bytes(), 8, 14),
            arp_sender_hardware(final(self).bytes()) == value@,
            final(self).wf(),
    {
        write_bytes(&mut self.buffer, 8, value.as_slice());
    }

    pub fn sender_protocol_address(&mut self, value: [u8; 4])
        requires
            old(self).wf(),
        ensures
            unchanged_outside(old(self).bytes(), final(self).bytes(), 14, 18),
            arp_sender_protocol(final(self).bytes()) == value@,
            final(self).wf(),
    {
        write_bytes(&mut self.buffer, 14, value.as_slice());
    }

    pub fn target_hardware_address(&mut self, value: [u8; 6])
        requires
            old(self).wf(),
        ensures
            unchanged_outside(old(self).bytes(), final(self).bytes(), 18, 24),
            arp_target_hardware(final(self).bytes()) == value@,
            final(self).wf(),
    {
        write_bytes(&mut self.buffer, 18, value.as_slice());
    }

    pub fn target_protocol_address(&mut self, value: [u8; 4])
        requires
            old(self).wf(),
        ensures
            unchanged_outside(old(self).bytes(), final(self).bytes(), 24, 28),
            arp_target_protocol(final(self).bytes()) == value@,
            final(self).wf(),
    {
        write_bytes(&mut self.buffer, 24, value.as_slice());
    }
}

/// Validating view over a received ARP message.
#[derive(Debug, Clone, Copy)]
pub struct ArpParser<'a> {
    buffer: &'a [u8],
}

impl<'a> ArpParser<'a> {
    /// The underlying received bytes.
    pub closed spec fn bytes(&self) -> Seq<u8> {
        self.buffer@
    }

    pub open spec fn wf(&self) -> bool {
        arp_valid(self.bytes())
    }

    /// Accepts exactly the buffers `arp_valid` describes and reports
    /// `arp_parse_error` on the rest.
    pub fn parse(buffer: &'a [u8]) -> (r: PduResult<ArpParser<'a>>)
        ensures
            match r {
                Ok(p) => arp_valid(buffer@) && p.bytes() == buffer@ && p.wf(),
                Err(e) => !arp_valid(buffer@) && e == arp_parse_error(buffer@),
            },
    {
        if buffer.len() < 28 {
            return Err(Error::Truncated);
        }
        let pdu = ArpParser { buffer };
        if pdu.hardware_length() != 6 {
            // Supports only 6-octet hardware addresses
            return Err(Error::Malformed);
        }
        if pdu.protocol_length() != 4 {
            // Supports only 4-octet protocol addresses
            return Err(Error::Malformed);
        }
        Ok(pdu)
    }

    pub fn hardware_type(&self) -> (r: u16)
        requires
            self.bytes().len() >= 28,
        ensures
            r == arp_hardware_type(self.bytes()),
    {
        read_be16(self.buffer, 0)
    }

    pub fn protocol_type(&self) -> (r: u16)
        requires
            self.bytes().len() >= 28,
        ensures
            r == arp_protocol_type(self.bytes()),
    {
        read_be16(self.buffer, 2)
    }

    pub fn hardware_length(&self) -> (r: u8)
        requires
            self.bytes().len() >= 28,
        ensures
            r == arp_hardware_length(self.bytes()),
    {
        self.buffer[4]
    }

    pub fn protocol_length(&self) -> (r: u8)
        requires
            self.bytes().len() >= 28,
        ensures
            r == arp_protocol_length(self.bytes()),
    {
        self.buffer[5]
    }

    pub fn opcode(&self) -> (r: u16)
        requires
            self.bytes().len() >= 28,
        ensures
            r == arp_opcode(self.bytes()),
    {
        read_be16(self.buffer, 6)
    }

    pub fn sender_hardware_address(&self) -> (r: [u8; 6])
        requires
            self.bytes().len() >= 28,
        ensures
            r@ == arp_sender_hardware(self.bytes()),
    {
        let b = self.buffer;
        let r = [b[8], b[9], b[10], b[11], b[12], b[13]];
        proof {
            assert(r@ =~= arp_sender_hardware(self.bytes()));
        }
        r
    }

    pub fn sender_protocol_address(&self) -> (r: [u8; 4])
        requires
            self.bytes().len() >= 28,
        ensures
            r@ == arp_sender_protocol(self.bytes()),
    {
        let b = self.buffer;
        let r = [b[14], b[15], b[16], b[17]];
        proof {
            assert(r@ =~= arp_sender_protocol(self.bytes()));
        }
        r
    }

    pub fn target_hardware_address(&self) -> (r: [u8; 6])
        requires
            self.bytes().len() >= 28,
        ensures
            r@ == arp_target_hardware(self.bytes()),
    {
        let b = self.buffer;
        let r = [b[18], b[19], b[20], b[21], b[22], b[23]];
        proof {
            assert(r@ =~= arp_target_hardware(self.bytes()));
        }
        r
    }

    pub fn target_protocol_address(&self) -> (r: [u8; 4])
        requires
            self.bytes().len() >= 28,
        ensures
            r@ == arp_target_protocol(self.bytes()),
    {
        let b = self.buffer;
        let r = [b[24], b[25], b[26], b[27]];
        proof {
            assert(r@ =~= arp_target_protocol(self.bytes()));
        }
        r
    }
}

/// Round trip: any well-formed builder output (the address lengths it
/// pre-fills left in place) parses successfully, and every parser accessor
/// reads back exactly the field bytes the builder holds.
pub proof fn lemma_arp_round_trip(p: ArpPdu)
    requires
        p.wf(),
        arp_hardware_length(p.bytes()) == 6,
        arp_protocol_length(p.bytes()) == 4,
    ensures
        arp_valid(p.bytes()),
{
}

} // verus!
