//! Value types with their own byte layouts: positions and velocities,
//! quantized rotations, block positions and 16-byte identifiers.
pub mod block;
pub mod education;
pub mod entity;
pub mod game;
pub mod generic;
pub mod inventory;
pub mod item;
pub mod player;
pub mod resource_pack;

use crate::error::Error;
use crate::wire::{
    agrees, holds_at, le_bytes, lemma_holds_at_concat3, lemma_parse_le_round_trip,
    lemma_var_i32_round_trip, lemma_var_u32_round_trip, parse_le, parse_u8, parse_var_i32,
    parse_var_u32, pow256, read_le, read_u8, read_var_i32, read_var_u32, var_bytes, var_i32_bytes,
    write_bytes, write_le, write_u8, write_var_i32, write_var_u32,
};
use vstd::prelude::*;

verus! {

/// Three little-endian 32-bit values, as a parse result.
pub open spec fn parse_le32x3(s: Seq<u8>, pos: nat) -> Result<((u32, u32, u32), nat), Error> {
    match parse_le(s, pos, 4) {
        Ok((x, p1)) => match parse_le(s, p1, 4) {
            Ok((y, p2)) => match parse_le(s, p2, 4) {
                Ok((z, p3)) => Ok(((x as u32, y as u32, z as u32), p3)),
                Err(e) => Err(e),
            },
            Err(e) => Err(e),
        },
        Err(e) => Err(e),
    }
}

pub open spec fn le32x3_bytes(x: u32, y: u32, z: u32) -> Seq<u8> {
    le_bytes(x as nat, 4) + le_bytes(y as nat, 4) + le_bytes(z as nat, 4)
}

fn read_le32(buf: &[u8], pos: usize) -> (r: Result<(u32, usize), Error>)
    ensures
        match r {
            Ok((v, p)) => parse_le(buf@, pos as nat, 4) == Ok::<(nat, nat), Error>(
                (v as nat, p as nat),
            ) && p <= buf@.len(),
            Err(e) => parse_le(buf@, pos as nat, 4) == Err::<(nat, nat), Error>(e),
        },
{
    match read_le(buf, pos, 4) {
        Ok((v, p)) => {
            proof {
                crate::wire::lemma_le_value_bound(buf@.subrange(pos as int, pos + 4));
                reveal_with_fuel(pow256, 5);
            }
            Ok((v as u32, p))
        },
        Err(e) => Err(e),
    }
}

fn read_le32x3(buf: &[u8], pos: usize) -> (r: Result<((u32, u32, u32), usize), Error>)
    ensures
        agrees(r, parse_le32x3(buf@, pos as nat), buf@.len()),
{
    let (x, p1) = match read_le32(buf, pos) {
        Ok(v) => v,
        Err(e) => return Err(e),
    };
    let (y, p2) = match read_le32(buf, p1) {
        Ok(v) => v,
        Err(e) => return Err(e),
    };
    let (z, p3) = match read_le32(buf, p2) {
        Ok(v) => v,
        Err(e) => return Err(e),
    };
    Ok(((x, y, z), p3))
}

proof fn lemma_le32x3_round_trip(x: u32, y: u32, z: u32, s: Seq<u8>, pos: nat)
    requires
        holds_at(s, pos, le32x3_bytes(x, y, z)),
    ensures
        parse_le32x3(s, pos) == Ok::<((u32, u32, u32), nat), Error>(
            ((x, y, z), pos + le32x3_bytes(x, y, z).len()),
        ),
{
    reveal_with_fuel(pow256, 5);
    lemma_holds_at_concat3(
        s,
        pos,
        le_bytes(x as nat, 4),
        le_bytes(y as nat, 4),
        le_bytes(z as nat, 4),
    );
    lemma_parse_le_round_trip(s, pos, x as nat, 4);
    lemma_parse_le_round_trip(s, pos + 4, y as nat, 4);
    lemma_parse_le_round_trip(s, pos + 8, z as nat, 4);
}

/// A position in a world: three IEEE-754 single-precision coordinates, held as
/// their bit patterns and written little-endian.
#[derive(Debug, Clone, Copy, PartialEq, Eq, Structural, Default)]
pub struct Position {
    pub x: u32,
    pub y: u32,
    pub z: u32,
}

/// A velocity along the three axes, laid out as a `Position`.
#[derive(Debug, Clone, Copy, PartialEq, Eq, Structural, Default)]
pub struct Velocity {
    pub x: u32,
    pub y: u32,
    pub z: u32,
}

impl Position {
    pub open spec fn spec_bytes(self) -> Seq<u8> {
        le32x3_bytes(self.x, self.y, self.z)
    }

    pub open spec fn parse(s: Seq<u8>, pos: nat) -> Result<(Self, nat), Error> {
        match parse_le32x3(s, pos) {
            Ok(((x, y, z), p)) => Ok((Position { x, y, z }, p)),
            Err(e) => Err(e),
        }
    }

    pub fn serialize(&self, out: &mut Vec<u8>)
        ensures
            final(out)@ == old(out)@ + self.spec_bytes(),
    {
        write_le(out, self.x as u64, 4);
        write_le(out, self.y as u64, 4);
        write_le(out, self.z as u64, 4);
        assert(final(out)@ =~= old(out)@ + self.spec_bytes());
    }

    pub fn deserialize(buf: &[u8], pos: usize) -> (r: Result<(Self, usize), Error>)
        ensures
            agrees(r, Self::parse(buf@, pos as nat), buf@.len()),
    {
        match read_le32x3(buf, pos) {
            Ok(((x, y, z), p)) => Ok((Position { x, y, z }, p)),
            Err(e) => Err(e),
        }
    }

    pub proof fn lemma_round_trip(self, s: Seq<u8>, pos: nat)
        requires
            holds_at(s, pos, self.spec_bytes()),
        ensures
            Self::parse(s, pos) == Ok::<(Self, nat), Error>((self, pos + self.spec_bytes().len())),
    {
        lemma_le32x3_round_trip(self.x, self.y, self.z, s, pos);
    }
}

impl Velocity {
    pub open spec fn spec_bytes(self) -> Seq<u8> {
        le32x3_bytes(self.x, self.y, self.z)
    }

    pub open spec fn parse(s: Seq<u8>, pos: nat) -> Result<(Self, nat), Error> {
        match parse_le32x3(s, pos) {
            Ok(((x, y, z), p)) => Ok((Velocity { x, y, z }, p)),
            Err(e) => Err(e),
        }
    }

    pub fn serialize(&self, out: &mut Vec<u8>)
        ensures
            final(out)@ == old(out)@ + self.spec_bytes(),
    {
        write_le(out, self.x as u64, 4);
        write_le(out, self.y as u64, 4);
        write_le(out, self.z as u64, 4);
        assert(final(out)@ =~= old(out)@ + self.spec_bytes());
    }

    pub fn deserialize(buf: &[u8], pos: usize) -> (r: Result<(Self, usize), Error>)
        ensures
            agrees(r, Self::parse(buf@, pos as nat), buf@.len()),
    {
        match read_le32x3(buf, pos) {
            Ok(((x, y, z), p)) => Ok((Velocity { x, y, z }, p)),
            Err(e) => Err(e),
        }
    }

    pub proof fn lemma_round_trip(self, s: Seq<u8>, pos: nat)
        requires
            holds_at(s, pos, self.spec_bytes()),
        ensures
            Self::parse(s, pos) == Ok::<(Self, nat), Error>((self, pos + self.spec_bytes().len())),
    {
        lemma_le32x3_round_trip(self.x, self.y, self.z, s, pos);
    }
}

/// A rotation about the three axes, each quantized to one of 256 steps of a
/// full turn (a step is 360/256 degrees). The wire holds the three step counts
/// as single bytes; turning angles into steps and back is the caller's part.
#[derive(Debug, Clone, Copy, PartialEq, Eq, Structural, Default)]
pub struct Rotation {
    pub x: u8,
    pub y: u8,
    pub z: u8,
}

impl Rotation {
    pub open spec fn spec_bytes(self) -> Seq<u8> {
        seq![self.x, self.y, self.z]
    }

    pub open spec fn parse(s: Seq<u8>, pos: nat) -> Result<(Self, nat), Error> {
        match parse_u8(s, pos) {
            Ok((x, p1)) => match parse_u8(s, p1) {
                Ok((y, p2)) => match parse_u8(s, p2) {
                    Ok((z, p3)) => Ok((Rotation { x, y, z }, p3)),
                    Err(e) => Err(e),
                },
                Err(e) => Err(e),
            },
            Err(e) => Err(e),
        }
    }

    pub fn serialize(&self, out: &mut Vec<u8>)
        ensures
            final(out)@ == old(out)@ + self.spec_bytes(),
    {
        write_u8(out, self.x);
        write_u8(out, self.y);
        write_u8(out, self.z);
        assert(final(out)@ =~= old(out)@ + self.spec_bytes());
    }

    pub fn deserialize(buf: &[u8], pos: usize) -> (r: Result<(Self, usize), Error>)
        ensures
            agrees(r, Self::parse(buf@, pos as nat), buf@.len()),
    {
        let (x, p1) = match read_u8(buf, pos) {
            Ok(v) => v,
            Err(e) => return Err(e),
        };
        let (y, p2) = match read_u8(buf, p1) {
            Ok(v) => v,
            Err(e) => return Err(e),
        };
        let (z, p3) = match read_u8(buf, p2) {
            Ok(v) => v,
            Err(e) => return Err(e),
        };
        Ok((Rotation { x, y, z }, p3))
    }

    pub proof fn lemma_round_trip(self, s: Seq<u8>, pos: nat)
        requires
            holds_at(s, pos, self.spec_bytes()),
        ensures
            Self::parse(s, pos) == Ok::<(Self, nat), Error>((self, pos + self.spec_bytes().len())),
    {
        let t = s.subrange(pos as int, pos + 3 as int);
        assert(s[pos as int] == t[0] && s[pos + 1 as int] == t[1] && s[pos + 2 as int] == t[2]);
    }
}

/// The position of a block: three signed variable-length coordinates.
#[derive(Debug, Clone, Copy, PartialEq, Eq, Structural, Default)]
pub struct BlockPos {
    pub x: i32,
    pub y: i32,
    pub z: i32,
}

/// The position of a block whose height is never negative: the height is an
/// unsigned variable-length integer between two signed ones.
#[derive(Debug, Clone, Copy, PartialEq, Eq, Structural, Default)]
pub struct UBlockPos {
    pub x: i32,
    pub y: u32,
    pub z: i32,
}

impl BlockPos {
    pub open spec fn spec_bytes(self) -> Seq<u8> {
        var_i32_bytes(self.x) + var_i32_bytes(self.y) + var_i32_bytes(self.z)
    }

    pub open spec fn parse(s: Seq<u8>, pos: nat) -> Result<(Self, nat), Error> {
        match parse_var_i32(s, pos) {
            Ok((x, p1)) => match parse_var_i32(s, p1) {
                Ok((y, p2)) => match parse_var_i32(s, p2) {
                    Ok((z, p3)) => Ok((BlockPos { x, y, z }, p3)),
                    Err(e) => Err(e),
                },
                Err(e) => Err(e),
            },
            Err(e) => Err(e),
        }
    }

    pub fn serialize(&self, out: &mut Vec<u8>)
        ensures
            final(out)@ == old(out)@ + self.spec_bytes(),
    {
        write_var_i32(out, self.x);
        write_var_i32(out, self.y);
        write_var_i32(out, self.z);
        assert(final(out)@ =~= old(out)@ + self.spec_bytes());
    }

    pub fn deserialize(buf: &[u8], pos: usize) -> (r: Result<(Self, usize), Error>)
        ensures
            agrees(r, Self::parse(buf@, pos as nat), buf@.len()),
    {
        let (x, p1) = match read_var_i32(buf, pos) {
            Ok(v) => v,
            Err(e) => return Err(e),
        };
        let (y, p2) = match read_var_i32(buf, p1) {
            Ok(v) => v,
            Err(e) => return Err(e),
        };
        let (z, p3) = match read_var_i32(buf, p2) {
            Ok(v) => v,
            Err(e) => return Err(e),
        };
        Ok((BlockPos { x, y, z }, p3))
    }

    pub proof fn lemma_round_trip(self, s: Seq<u8>, pos: nat)
        requires
            holds_at(s, pos, self.spec_bytes()),
        ensures
            Self::parse(s, pos) == Ok::<(Self, nat), Error>((self, pos + self.spec_bytes().len())),
    {
        let (a, b, c) = (var_i32_bytes(self.x), var_i32_bytes(self.y), var_i32_bytes(self.z));
        lemma_holds_at_concat3(s, pos, a, b, c);
        lemma_var_i32_round_trip(s, pos, self.x);
        lemma_var_i32_round_trip(s, pos + a.len(), self.y);
        lemma_var_i32_round_trip(s, pos + a.len() + b.len(), self.z);
    }
}

impl UBlockPos {
    pub open spec fn spec_bytes(self) -> Seq<u8> {
        var_i32_bytes(self.x) + var_bytes(self.y as nat) + var_i32_bytes(self.z)
    }

    pub open spec fn parse(s: Seq<u8>, pos: nat) -> Result<(Self, nat), Error> {
        match parse_var_i32(s, pos) {
            Ok((x, p1)) => match parse_var_u32(s, p1) {
                Ok((y, p2)) => match parse_var_i32(s, p2) {
                    Ok((z, p3)) => Ok((UBlockPos { x, y, z }, p3)),
                    Err(e) => Err(e),
                },
                Err(e) => Err(e),
            },
            Err(e) => Err(e),
        }
    }

    pub fn serialize(&self, out: &mut Vec<u8>)
        ensures
            final(out)@ == old(out)@ + self.spec_bytes(),
    {
        write_var_i32(out, self.x);
        write_var_u32(out, self.y);
        write_var_i32(out, self.z);
        assert(final(out)@ =~= old(out)@ + self.spec_bytes());
    }

    pub fn deserialize(buf: &[u8], pos: usize) -> (r: Result<(Self, usize), Error>)
        ensures
            agrees(r, Self::parse(buf@, pos as nat), buf@.len()),
    {
        let (x, p1) = match read_var_i32(buf, pos) {
            Ok(v) => v,
            Err(e) => return Err(e),
        };
        let (y, p2) = match read_var_u32(buf, p1) {
            Ok(v) => v,
            Err(e) => return Err(e),
        };
        let (z, p3) = match read_var_i32(buf, p2) {
            Ok(v) => v,
            Err(e) => return Err(e),
        };
        Ok((UBlockPos { x, y, z }, p3))
    }

    pub proof fn lemma_round_trip(self, s: Seq<u8>, pos: nat)
        requires
            holds_at(s, pos, self.spec_bytes()),
        ensures
            Self::parse(s, pos) == Ok::<(Self, nat), Error>((self, pos + self.spec_bytes().len())),
    {
        let (a, b, c) = (var_i32_bytes(self.x), var_bytes(self.y as nat), var_i32_bytes(self.z));
        lemma_holds_at_concat3(s, pos, a, b, c);
        lemma_var_i32_round_trip(s, pos, self.x);
        lemma_var_u32_round_trip(s, pos + a.len(), self.y);
        lemma_var_i32_round_trip(s, pos + a.len() + b.len(), self.z);
    }
}

/// A unique identifier: exactly 16 raw bytes, no length prefix, no byte-order
/// transform.
#[derive(Debug, Clone, Copy, PartialEq, Eq, Default)]
pub struct UUID {
    pub bytes: [u8; 16],
}

impl UUID {
    pub open spec fn spec_bytes(self) -> Seq<u8> {
        self.bytes@
    }

    pub open spec fn parse(s: Seq<u8>, pos: nat) -> Result<(Seq<u8>, nat), Error> {
        if pos + 16 <= s.len() {
            Ok((s.subrange(pos as int, pos + 16 as int), pos + 16))
        } else {
            Err(Error::UnexpectedEnd)
        }
    }

    pub fn serialize(&self, out: &mut Vec<u8>)
        ensures
            final(out)@ == old(out)@ + self.spec_bytes(),
    {
        write_bytes(out, self.bytes.as_slice());
    }

    /// Reads 16 bytes; the result's `bytes` view is what the spec parser gives.
    pub fn deserialize(buf: &[u8], pos: usize) -> (r: Result<(Self, usize), Error>)
        ensures
            match r {
                Ok((u, p)) => Self::parse(buf@, pos as nat) == Ok::<(Seq<u8>, nat), Error>(
                    (u.bytes@, p as nat),
                ) && p <= buf@.len(),
                Err(e) => Self::parse(buf@, pos as nat) == Err::<(Seq<u8>, nat), Error>(e),
            },
    {
        if pos > buf.len() || 16 > buf.len() - pos {
            return Err(Error::UnexpectedEnd);
        }
        let bytes: [u8; 16] = [
            buf[pos],
            buf[pos + 1],
            buf[pos + 2],
            buf[pos + 3],
            buf[pos + 4],
            buf[pos + 5],
            buf[pos + 6],
            buf[pos + 7],
            buf[pos + 8],
            buf[pos + 9],
            buf[pos + 10],
            buf[pos + 11],
            buf[pos + 12],
            buf[pos + 13],
            buf[pos + 14],
            buf[pos + 15],
        ];
        assert(bytes@ =~= buf@.subrange(pos as int, pos + 16 as int));
        Ok((UUID { bytes }, pos + 16))
    }

    pub proof fn lemma_round_trip(self, s: Seq<u8>, pos: nat)
        requires
            holds_at(s, pos, self.spec_bytes()),
        ensures
            Self::parse(s, pos) == Ok::<(Seq<u8>, nat), Error>(
                (self.bytes@, pos + self.spec_bytes().len()),
            ),
    {
    }
}

} // verus!
