//! The packet header: one variable-length integer packing the packet ID with
//! the sender and target sub-client IDs used for split-screen play.
use crate::error::Error;
use crate::wire::{
    agrees, holds_at, lemma_var_u32_round_trip, parse_var_u32, read_var_u32, var_bytes,
    write_var_u32,
};
use vstd::prelude::*;

verus! {

pub const PID_MASK: u32 = 0x3FF;

pub const SUBCLIENT_ID_MASK: u32 = 0x03;

pub const SENDER_SUBCLIENT_ID_SHIFT: u32 = 10;

pub const TARGET_SUBCLIENT_ID_SHIFT: u32 = 12;

/// The header of a packet: the packet ID in the low ten bits, the sender
/// sub-client ID in the next two and the target sub-client ID in the two above.
#[derive(Debug, Clone, Copy, PartialEq, Eq, Structural)]
pub struct PacketHeader {
    pub id: u32,
    pub sender_subclient_id: u8,
    pub target_subclient_id: u8,
}

/// The value the header packs its fields into. Fields wider than their bit
/// range are not masked and spill into the neighbouring fields.
pub open spec fn pack(id: u32, sender: u8, target: u8) -> u32 {
    id | ((sender as u32) << 10u32) | ((target as u32) << 12u32)
}

/// The header fields read back from a packed value.
pub open spec fn unpack(v: u32) -> PacketHeader {
    PacketHeader {
        id: v & 0x3FF,
        sender_subclient_id: ((v >> 10u32) & 0x03) as u8,
        target_subclient_id: ((v >> 12u32) & 0x03) as u8,
    }
}

/// The bytes of a header.
pub open spec fn header_bytes(h: PacketHeader) -> Seq<u8> {
    var_bytes(pack(h.id, h.sender_subclient_id, h.target_subclient_id) as nat)
}

pub open spec fn parse_header(s: Seq<u8>, pos: nat) -> Result<(PacketHeader, nat), Error> {
    match parse_var_u32(s, pos) {
        Ok((v, p)) => Ok((unpack(v), p)),
        Err(e) => Err(e),
    }
}

impl PacketHeader {
    pub open spec fn spec_new(id: u32) -> PacketHeader {
        PacketHeader { id, sender_subclient_id: 0, target_subclient_id: 0 }
    }

    /// A header for packet `id` with both sub-client IDs zero.
    pub fn new(id: u32) -> (r: Self)
        ensures
            r == Self::spec_new(id),
    {
        PacketHeader { id, sender_subclient_id: 0, target_subclient_id: 0 }
    }

    /// The packet ID the header carries.
    pub fn id(&self) -> (r: u32)
        ensures
            r == self.id,
    {
        self.id
    }

    /// Appends the header as one variable-length integer.
    pub fn serialize(&self, out: &mut Vec<u8>)
        ensures
            final(out)@ == old(out)@ + header_bytes(*self),
    {
        let packed = self.id | (self.sender_subclient_id as u32) << SENDER_SUBCLIENT_ID_SHIFT
            | (self.target_subclient_id as u32) << TARGET_SUBCLIENT_ID_SHIFT;
        write_var_u32(out, packed);
    }

    /// Reads a header at `pos`: one variable-length integer, split by masks.
    pub fn deserialize(buf: &[u8], pos: usize) -> (r: Result<(Self, usize), Error>)
        ensures
            agrees(r, parse_header(buf@, pos as nat), buf@.len()),
    {
        match read_var_u32(buf, pos) {
            Ok((v, p)) => {
                let id = v & PID_MASK;
                let sender_subclient_id = ((v >> SENDER_SUBCLIENT_ID_SHIFT)
                    & SUBCLIENT_ID_MASK) as u8;
                let target_subclient_id = ((v >> TARGET_SUBCLIENT_ID_SHIFT)
                    & SUBCLIENT_ID_MASK) as u8;
                Ok((PacketHeader { id, sender_subclient_id, target_subclient_id }, p))
            },
            Err(e) => Err(e),
        }
    }
}

/// Packing and unpacking are inverse on in-range fields: an ID below 1024 and
/// sub-client IDs below 4 come back unchanged.
pub proof fn lemma_unpack_pack(id: u32, sender: u8, target: u8)
    requires
        id <= 0x3FF,
        sender <= 3,
        target <= 3,
    ensures
        unpack(pack(id, sender, target)) == (PacketHeader {
            id,
            sender_subclient_id: sender,
            target_subclient_id: target,
        }),
{
    let s = sender as u32;
    let t = target as u32;
    assert((id | (s << 10u32) | (t << 12u32)) & 0x3FF == id) by (bit_vector)
        requires
            id <= 0x3FF,
            s <= 3,
            t <= 3,
    ;
    assert(((id | (s << 10u32) | (t << 12u32)) >> 10u32) & 0x03 == s) by (bit_vector)
        requires
            id <= 0x3FF,
            s <= 3,
            t <= 3,
    ;
    assert(((id | (s << 10u32) | (t << 12u32)) >> 12u32) & 0x03 == t) by (bit_vector)
        requires
            id <= 0x3FF,
            s <= 3,
            t <= 3,
    ;
}

/// Decoding the bytes of a header whose ID fits ten bits and whose sub-client
/// IDs fit two bits each gives back the same header, and consumes exactly those
/// bytes.
pub proof fn lemma_header_round_trip(h: PacketHeader, s: Seq<u8>, pos: nat)
    requires
        h.id <= 0x3FF,
        h.sender_subclient_id <= 3,
        h.target_subclient_id <= 3,
        holds_at(s, pos, header_bytes(h)),
    ensures
        parse_header(s, pos) == Ok::<(PacketHeader, nat), Error>(
            (h, pos + header_bytes(h).len()),
        ),
{
    lemma_var_u32_round_trip(s, pos, pack(h.id, h.sender_subclient_id, h.target_subclient_id));
    lemma_unpack_pack(h.id, h.sender_subclient_id, h.target_subclient_id);
}

} // verus!
