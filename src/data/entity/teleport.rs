//! Movement and teleport kinds.
use crate::error::Error;
use crate::wire::{
    Width, agrees, holds_at, lemma_width_round_trip, parse_width, read_width, width_bytes,
    write_width,
};
use vstd::prelude::*;

verus! {

/// How a player movement is to be applied.
#[derive(Debug, Clone, Copy, PartialEq, Eq, Structural)]
pub enum MovementMode {
    Normal,
    Reset,
    Teleportation,
    Rotation,
    Invalid,
}

impl Default for MovementMode {
    fn default() -> (r: Self)
        ensures
            r == MovementMode::Invalid,
    {
        MovementMode::Invalid
    }
}

impl MovementMode {
    /// The wire integer each variant is tagged with.
    pub open spec fn spec_tag(self) -> u32 {
        match self {
            MovementMode::Normal => 0,
            MovementMode::Reset => 1,
            MovementMode::Teleportation => 2,
            MovementMode::Rotation => 3,
            MovementMode::Invalid => 4,
        }
    }

    /// The variant a wire integer decodes to; a tag no variant carries gives `Invalid`.
    pub open spec fn spec_from_tag(t: u32) -> Self {
        if t == 0 {
            MovementMode::Normal
        } else if t == 1 {
            MovementMode::Reset
        } else if t == 2 {
            MovementMode::Teleportation
        } else if t == 3 {
            MovementMode::Rotation
        } else {
            MovementMode::Invalid
        }
    }

    pub open spec fn spec_bytes(self) -> Seq<u8> {
        width_bytes(Width::Le32, self.spec_tag())
    }

    pub open spec fn parse(s: Seq<u8>, pos: nat) -> Result<(Self, nat), Error> {
        match parse_width(Width::Le32, s, pos) {
            Ok((t, p)) => Ok((Self::spec_from_tag(t), p)),
            Err(e) => Err(e),
        }
    }

    pub fn tag(&self) -> (r: u32)
        ensures
            r == self.spec_tag(),
    {
        match self {
            MovementMode::Normal => 0,
            MovementMode::Reset => 1,
            MovementMode::Teleportation => 2,
            MovementMode::Rotation => 3,
            MovementMode::Invalid => 4,
        }
    }

    pub fn from_tag(t: u32) -> (r: Self)
        ensures
            r == Self::spec_from_tag(t),
    {
        if t == 0 {
            MovementMode::Normal
        } else if t == 1 {
            MovementMode::Reset
        } else if t == 2 {
            MovementMode::Teleportation
        } else if t == 3 {
            MovementMode::Rotation
        } else {
            MovementMode::Invalid
        }
    }

    pub fn serialize(&self, out: &mut Vec<u8>)
        ensures
            final(out)@ == old(out)@ + self.spec_bytes(),
    {
        write_width(out, Width::Le32, self.tag());
    }

    pub fn deserialize(buf: &[u8], pos: usize) -> (r: Result<(Self, usize), Error>)
        ensures
            agrees(r, Self::parse(buf@, pos as nat), buf@.len()),
    {
        match read_width(buf, pos, Width::Le32) {
            Ok((t, p)) => Ok((Self::from_tag(t), p)),
            Err(e) => Err(e),
        }
    }

    /// Every variant's tag decodes back to that variant.
    pub proof fn lemma_tag_round_trip(self)
        ensures
            Self::spec_from_tag(self.spec_tag()) == self,
    {
    }

    /// A tag that no variant carries decodes to `Invalid`, never to an error.
    pub proof fn lemma_unknown_tag(t: u32)
        requires
            forall|e: Self| e.spec_tag() != t,
        ensures
            Self::spec_from_tag(t) == MovementMode::Invalid,
    {
        if Self::spec_from_tag(t) != MovementMode::Invalid {
            assert(Self::spec_from_tag(t).spec_tag() == t);
        }
    }

    /// Decoding the bytes of a variant gives it back and consumes exactly those bytes.
    pub proof fn lemma_round_trip(self, s: Seq<u8>, pos: nat)
        requires
            holds_at(s, pos, self.spec_bytes()),
        ensures
            Self::parse(s, pos) == Ok::<(Self, nat), Error>((self, pos + self.spec_bytes().len())),
    {
        lemma_width_round_trip(Width::Le32, self.spec_tag(), s, pos);
    }
}

/// What caused a teleport.
#[derive(Debug, Clone, Copy, PartialEq, Eq, Structural)]
pub enum TeleportCause {
    Unknown,
    Projectile,
    ChorusFruit,
    Command,
    Behaviour,
}

impl Default for TeleportCause {
    fn default() -> (r: Self)
        ensures
            r == TeleportCause::Unknown,
    {
        TeleportCause::Unknown
    }
}

impl TeleportCause {
    /// The wire integer each variant is tagged with.
    pub open spec fn spec_tag(self) -> u32 {
        match self {
            TeleportCause::Unknown => 0,
            TeleportCause::Projectile => 1,
            TeleportCause::ChorusFruit => 2,
            TeleportCause::Command => 3,
            TeleportCause::Behaviour => 4,
        }
    }

    /// The variant a wire integer decodes to; a tag no variant carries gives `Unknown`.
    pub open spec fn spec_from_tag(t: u32) -> Self {
        if t == 1 {
            TeleportCause::Projectile
        } else if t == 2 {
            TeleportCause::ChorusFruit
        } else if t == 3 {
            TeleportCause::Command
        } else if t == 4 {
            TeleportCause::Behaviour
        } else {
            TeleportCause::Unknown
        }
    }

    pub open spec fn spec_bytes(self) -> Seq<u8> {
        width_bytes(Width::Byte, self.spec_tag())
    }

    pub open spec fn parse(s: Seq<u8>, pos: nat) -> Result<(Self, nat), Error> {
        match parse_width(Width::Byte, s, pos) {
            Ok((t, p)) => Ok((Self::spec_from_tag(t), p)),
            Err(e) => Err(e),
        }
    }

    pub fn tag(&self) -> (r: u32)
        ensures
            r == self.spec_tag(),
    {
        match self {
            TeleportCause::Unknown => 0,
            TeleportCause::Projectile => 1,
            TeleportCause::ChorusFruit => 2,
            TeleportCause::Command => 3,
            TeleportCause::Behaviour => 4,
        }
    }

    pub fn from_tag(t: u32) -> (r: Self)
        ensures
            r == Self::spec_from_tag(t),
    {
        if t == 1 {
            TeleportCause::Projectile
        } else if t == 2 {
            TeleportCause::ChorusFruit
        } else if t == 3 {
            TeleportCause::Command
        } else if t == 4 {
            TeleportCause::Behaviour
        } else {
            TeleportCause::Unknown
        }
    }

    pub fn serialize(&self, out: &mut Vec<u8>)
        ensures
            final(out)@ == old(out)@ + self.spec_bytes(),
    {
        write_width(out, Width::Byte, self.tag());
    }

    pub fn deserialize(buf: &[u8], pos: usize) -> (r: Result<(Self, usize), Error>)
        ensures
            agrees(r, Self::parse(buf@, pos as nat), buf@.len()),
    {
        match read_width(buf, pos, Width::Byte) {
            Ok((t, p)) => Ok((Self::from_tag(t), p)),
            Err(e) => Err(e),
        }
    }

    /// Every variant's tag decodes back to that variant.
    pub proof fn lemma_tag_round_trip(self)
        ensures
            Self::spec_from_tag(self.spec_tag()) == self,
    {
    }

    /// A tag that no variant carries decodes to `Unknown`, never to an error.
    pub proof fn lemma_unknown_tag(t: u32)
        requires
            forall|e: Self| e.spec_tag() != t,
        ensures
            Self::spec_from_tag(t) == TeleportCause::Unknown,
    {
        if Self::spec_from_tag(t) != TeleportCause::Unknown {
            assert(Self::spec_from_tag(t).spec_tag() == t);
        }
    }

    /// Decoding the bytes of a variant gives it back and consumes exactly those bytes.
    pub proof fn lemma_round_trip(self, s: Seq<u8>, pos: nat)
        requires
            holds_at(s, pos, self.spec_bytes()),
        ensures
            Self::parse(s, pos) == Ok::<(Self, nat), Error>((self, pos + self.spec_bytes().len())),
    {
        lemma_width_round_trip(Width::Byte, self.spec_tag(), s, pos);
    }
}

} // verus!
