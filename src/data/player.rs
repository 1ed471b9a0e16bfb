//! Player movement settings.
use crate::error::Error;
use crate::wire::{
    Width, agrees, bool_bytes, holds_at, lemma_bool_round_trip, lemma_holds_at_concat,
    lemma_var_i32_round_trip, lemma_width_round_trip, parse_bool, parse_var_i32, parse_width,
    read_bool, read_var_i32, read_width, var_i32_bytes, width_bytes, write_bool, write_var_i32,
    write_width,
};
use vstd::prelude::*;

verus! {

/// Which side is authoritative for player movement.
#[derive(Debug, Clone, Copy, PartialEq, Eq, Structural)]
pub enum MovementType {
    Client,
    Server,
    ServerWithRewind,
    Invalid,
}

impl Default for MovementType {
    fn default() -> (r: Self)
        ensures
            r == MovementType::Invalid,
    {
        MovementType::Invalid
    }
}

impl MovementType {
    /// The wire integer each variant is tagged with.
    pub open spec fn spec_tag(self) -> u32 {
        match self {
            MovementType::Client => 0,
            MovementType::Server => 1,
            MovementType::ServerWithRewind => 2,
            MovementType::Invalid => 3,
        }
    }

    /// The variant a wire integer decodes to; a tag no variant carries gives `Invalid`.
    pub open spec fn spec_from_tag(t: u32) -> Self {
        if t == 0 {
            MovementType::Client
        } else if t == 1 {
            MovementType::Server
        } else if t == 2 {
            MovementType::ServerWithRewind
        } else {
            MovementType::Invalid
        }
    }

    pub open spec fn spec_bytes(self) -> Seq<u8> {
        width_bytes(Width::Var, self.spec_tag())
    }

    pub open spec fn parse(s: Seq<u8>, pos: nat) -> Result<(Self, nat), Error> {
        match parse_width(Width::Var, s, pos) {
            Ok((t, p)) => Ok((Self::spec_from_tag(t), p)),
            Err(e) => Err(e),
        }
    }

    pub fn tag(&self) -> (r: u32)
        ensures
            r == self.spec_tag(),
    {
        match self {
            MovementType::Client => 0,
            MovementType::Server => 1,
            MovementType::ServerWithRewind => 2,
            MovementType::Invalid => 3,
        }
    }

    pub fn from_tag(t: u32) -> (r: Self)
        ensures
            r == Self::spec_from_tag(t),
    {
        if t == 0 {
            MovementType::Client
        } else if t == 1 {
            MovementType::Server
        } else if t == 2 {
            MovementType::ServerWithRewind
        } else {
            MovementType::Invalid
        }
    }

    pub fn serialize(&self, out: &mut Vec<u8>)
        ensures
            final(out)@ == old(out)@ + self.spec_bytes(),
    {
        write_width(out, Width::Var, self.tag());
    }

    pub fn deserialize(buf: &[u8], pos: usize) -> (r: Result<(Self, usize), Error>)
        ensures
            agrees(r, Self::parse(buf@, pos as nat), buf@.len()),
    {
        match read_width(buf, pos, Width::Var) {
            Ok((t, p)) => Ok((Self::from_tag(t), p)),
            Err(e) => Err(e),
        }
    }

    /// Every variant's tag decodes back to that variant.
    pub proof fn lemma_tag_round_trip(self)
        ensures
            Self::spec_from_tag(self.spec_tag()) == self,
    {
    }

    /// A tag that no variant carries decodes to `Invalid`, never to an error.
    pub proof fn lemma_unknown_tag(t: u32)
        requires
            forall|e: Self| e.spec_tag() != t,
        ensures
            Self::spec_from_tag(t) == MovementType::Invalid,
    {
        if Self::spec_from_tag(t) != MovementType::Invalid {
            assert(Self::spec_from_tag(t).spec_tag() == t);
        }
    }

    /// Decoding the bytes of a variant gives it back and consumes exactly those bytes.
    pub proof fn lemma_round_trip(self, s: Seq<u8>, pos: nat)
        requires
            holds_at(s, pos, self.spec_bytes()),
        ensures
            Self::parse(s, pos) == Ok::<(Self, nat), Error>((self, pos + self.spec_bytes().len())),
    {
        lemma_width_round_trip(Width::Var, self.spec_tag(), s, pos);
    }
}

/// Which side is authoritative for movement and block breaking.
#[derive(Debug, Clone, Copy, PartialEq, Eq, Structural, Default)]
pub struct PlayerMoveSettings {
    pub movement_type: MovementType,
    pub rewind_history_size: i32,
    pub server_authoritative_block_breaking: bool,
}

impl PlayerMoveSettings {
    /// The fields in declaration order.
    pub open spec fn spec_bytes(self) -> Seq<u8> {
        self.movement_type.spec_bytes()
            + (var_i32_bytes(self.rewind_history_size)
            + bool_bytes(self.server_authoritative_block_breaking))
    }

    pub open spec fn parse(s: Seq<u8>, pos: nat) -> Result<(PlayerMoveSettings, nat), Error> {
        match MovementType::parse(s, pos) {
            Ok((movement_type, p1)) => match parse_var_i32(s, p1) {
                Ok((rewind_history_size, p2)) => match parse_bool(s, p2) {
                    Ok((server_authoritative_block_breaking, p3)) => Ok(
                        (
                            PlayerMoveSettings {
                                movement_type,
                                rewind_history_size,
                                server_authoritative_block_breaking,
                            },
                            p3,
                        ),
                    ),
                    Err(e) => Err(e),
                },
                Err(e) => Err(e),
            },
            Err(e) => Err(e),
        }
    }

    pub fn serialize(&self, out: &mut Vec<u8>)
        ensures
            final(out)@ == old(out)@ + self.spec_bytes(),
    {
        self.movement_type.serialize(out);
        write_var_i32(out, self.rewind_history_size);
        write_bool(out, self.server_authoritative_block_breaking);
        assert(final(out)@ =~= old(out)@ + self.spec_bytes());
    }

    pub fn deserialize(buf: &[u8], pos: usize) -> (r: Result<(Self, usize), Error>)
        ensures
            agrees(r, Self::parse(buf@, pos as nat), buf@.len()),
    {
        let (movement_type, p1) = match MovementType::deserialize(buf, pos) {
            Ok(x) => x,
            Err(e) => return Err(e),
        };
        let (rewind_history_size, p2) = match read_var_i32(buf, p1) {
            Ok(x) => x,
            Err(e) => return Err(e),
        };
        let (server_authoritative_block_breaking, p3) = match read_bool(buf, p2) {
            Ok(x) => x,
            Err(e) => return Err(e),
        };
        Ok(
            (
                PlayerMoveSettings {
                    movement_type,
                    rewind_history_size,
                    server_authoritative_block_breaking,
                },
                p3,
            ),
        )
    }

    /// Decoding the bytes of a value gives it back and consumes exactly those bytes.
    pub proof fn lemma_round_trip(self, s: Seq<u8>, pos: nat)
        requires
            holds_at(s, pos, self.spec_bytes()),
        ensures
            Self::parse(s, pos) == Ok::<(PlayerMoveSettings, nat), Error>(
                (self, pos + self.spec_bytes().len()),
            ),
    {
        let t3 = bool_bytes(self.server_authoritative_block_breaking);
        let t2 = var_i32_bytes(self.rewind_history_size) + t3;
        lemma_holds_at_concat(s, pos, self.movement_type.spec_bytes(), t2);
        self.movement_type.lemma_round_trip(s, pos);
        let p1 = pos + self.movement_type.spec_bytes().len();
        lemma_holds_at_concat(s, p1, var_i32_bytes(self.rewind_history_size), t3);
        lemma_var_i32_round_trip(s, p1, self.rewind_history_size);
        let p2 = p1 + var_i32_bytes(self.rewind_history_size).len();
        lemma_bool_round_trip(s, p2, self.server_authoritative_block_breaking);
    }
}

} // verus!
