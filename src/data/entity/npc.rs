//! Requests to non-player characters.
use crate::error::Error;
use crate::wire::{
    Width, agrees, holds_at, lemma_width_round_trip, parse_width, read_width, width_bytes,
    write_width,
};
use vstd::prelude::*;

verus! {

/// The kind of a request sent to a non-player character.
#[derive(Debug, Clone, Copy, PartialEq, Eq, Structural)]
pub enum NPCRequestType {
    SetAction,
    ExecuteCommandAction,
    ExecuteClosingCommands,
    SetName,
    SetSkin,
    SetInteractionText,
    ExecuteOpeningCommands,
    Invalid,
}

impl Default for NPCRequestType {
    fn default() -> (r: Self)
        ensures
            r == NPCRequestType::Invalid,
    {
        NPCRequestType::Invalid
    }
}

impl NPCRequestType {
    /// The wire integer each variant is tagged with.
    pub open spec fn spec_tag(self) -> u32 {
        match self {
            NPCRequestType::SetAction => 0,
            NPCRequestType::ExecuteCommandAction => 1,
            NPCRequestType::ExecuteClosingCommands => 2,
            NPCRequestType::SetName => 3,
            NPCRequestType::SetSkin => 4,
            NPCRequestType::SetInteractionText => 5,
            NPCRequestType::ExecuteOpeningCommands => 6,
            NPCRequestType::Invalid => 7,
        }
    }

    /// The variant a wire integer decodes to; a tag no variant carries gives `Invalid`.
    pub open spec fn spec_from_tag(t: u32) -> Self {
        if t == 0 {
            NPCRequestType::SetAction
        } else if t == 1 {
            NPCRequestType::ExecuteCommandAction
        } else if t == 2 {
            NPCRequestType::ExecuteClosingCommands
        } else if t == 3 {
            NPCRequestType::SetName
        } else if t == 4 {
            NPCRequestType::SetSkin
        } else if t == 5 {
            NPCRequestType::SetInteractionText
        } else if t == 6 {
            NPCRequestType::ExecuteOpeningCommands
        } else {
            NPCRequestType::Invalid
        }
    }

    pub open spec fn spec_bytes(self) -> Seq<u8> {
        width_bytes(Width::Byte, self.spec_tag())
    }

    pub open spec fn parse(s: Seq<u8>, pos: nat) -> Result<(Self, nat), Error> {
        match parse_width(Width::Byte, s, pos) {
            Ok((t, p)) => Ok((Self::spec_from_tag(t), p)),
            Err(e) => Err(e),
        }
    }

    pub fn tag(&self) -> (r: u32)
        ensures
            r == self.spec_tag(),
    {
        match self {
            NPCRequestType::SetAction => 0,
            NPCRequestType::ExecuteCommandAction => 1,
            NPCRequestType::ExecuteClosingCommands => 2,
            NPCRequestType::SetName => 3,
            NPCRequestType::SetSkin => 4,
            NPCRequestType::SetInteractionText => 5,
            NPCRequestType::ExecuteOpeningCommands => 6,
            NPCRequestType::Invalid => 7,
        }
    }

    pub fn from_tag(t: u32) -> (r: Self)
        ensures
            r == Self::spec_from_tag(t),
    {
        if t == 0 {
            NPCRequestType::SetAction
        } else if t == 1 {
            NPCRequestType::ExecuteCommandAction
        } else if t == 2 {
            NPCRequestType::ExecuteClosingCommands
        } else if t == 3 {
            NPCRequestType::SetName
        } else if t == 4 {
            NPCRequestType::SetSkin
        } else if t == 5 {
            NPCRequestType::SetInteractionText
        } else if t == 6 {
            NPCRequestType::ExecuteOpeningCommands
        } else {
            NPCRequestType::Invalid
        }
    }

    pub fn serialize(&self, out: &mut Vec<u8>)
        ensures
            final(out)@ == old(out)@ + self.spec_bytes(),
    {
        write_width(out, Width::Byte, self.tag());
    }

    pub fn deserialize(buf: &[u8], pos: usize) -> (r: Result<(Self, usize), Error>)
        ensures
            agrees(r, Self::parse(buf@, pos as nat), buf@.len()),
    {
        match read_width(buf, pos, Width::Byte) {
            Ok((t, p)) => Ok((Self::from_tag(t), p)),
            Err(e) => Err(e),
        }
    }

    /// Every variant's tag decodes back to that variant.
    pub proof fn lemma_tag_round_trip(self)
        ensures
            Self::spec_from_tag(self.spec_tag()) == self,
    {
    }

    /// A tag that no variant carries decodes to `Invalid`, never to an error.
    pub proof fn lemma_unknown_tag(t: u32)
        requires
            forall|e: Self| e.spec_tag() != t,
        ensures
            Self::spec_from_tag(t) == NPCRequestType::Invalid,
    {
        if Self::spec_from_tag(t) != NPCRequestType::Invalid {
            assert(Self::spec_from_tag(t).spec_tag() == t);
        }
    }

    /// Decoding the bytes of a variant gives it back and consumes exactly those bytes.
    pub proof fn lemma_round_trip(self, s: Seq<u8>, pos: nat)
        requires
            holds_at(s, pos, self.spec_bytes()),
        ensures
            Self::parse(s, pos) == Ok::<(Self, nat), Error>((self, pos + self.spec_bytes().len())),
    {
        lemma_width_round_trip(Width::Byte, self.spec_tag(), s, pos);
    }
}

} // verus!
