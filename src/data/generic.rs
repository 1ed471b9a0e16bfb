//! Tagged-variant types shared by several packets.
use crate::error::Error;
use crate::wire::{
    Width, agrees, holds_at, lemma_width_round_trip, parse_width, read_width, width_bytes,
    write_width,
};
use vstd::prelude::*;

verus! {

/// The outcome a server reports to a joining client.
#[derive(Debug, Clone, Copy, PartialEq, Eq, Structural)]
pub enum PlayStatusType {
    Success,
    OutdatedClient,
    OutdatedServer,
    PlayerSpawn,
    InvalidTenant,
    EduToVanillaMismatch,
    VanillaToEduMismatch,
    ServerIsFull,
    EditorToVanillaMismatch,
    VanillaToEditorMismatch,
    Invalid,
}

impl Default for PlayStatusType {
    fn default() -> (r: Self)
        ensures
            r == PlayStatusType::Invalid,
    {
        PlayStatusType::Invalid
    }
}

impl PlayStatusType {
    /// The wire integer each variant is tagged with.
    pub open spec fn spec_tag(self) -> u32 {
        match self {
            PlayStatusType::Success => 0,
            PlayStatusType::OutdatedClient => 1,
            PlayStatusType::OutdatedServer => 2,
            PlayStatusType::PlayerSpawn => 3,
            PlayStatusType::InvalidTenant => 4,
            PlayStatusType::EduToVanillaMismatch => 5,
            PlayStatusType::VanillaToEduMismatch => 6,
            PlayStatusType::ServerIsFull => 7,
            PlayStatusType::EditorToVanillaMismatch => 8,
            PlayStatusType::VanillaToEditorMismatch => 9,
            PlayStatusType::Invalid => 10,
        }
    }

    /// The variant a wire integer decodes to; a tag no variant carries gives `Invalid`.
    pub open spec fn spec_from_tag(t: u32) -> Self {
        if t == 0 {
            PlayStatusType::Success
        } else if t == 1 {
            PlayStatusType::OutdatedClient
        } else if t == 2 {
            PlayStatusType::OutdatedServer
        } else if t == 3 {
            PlayStatusType::PlayerSpawn
        } else if t == 4 {
            PlayStatusType::InvalidTenant
        } else if t == 5 {
            PlayStatusType::EduToVanillaMismatch
        } else if t == 6 {
            PlayStatusType::VanillaToEduMismatch
        } else if t == 7 {
            PlayStatusType::ServerIsFull
        } else if t == 8 {
            PlayStatusType::EditorToVanillaMismatch
        } else if t == 9 {
            PlayStatusType::VanillaToEditorMismatch
        } else {
            PlayStatusType::Invalid
        }
    }

    pub open spec fn spec_bytes(self) -> Seq<u8> {
        width_bytes(Width::Be32, self.spec_tag())
    }

    pub open spec fn parse(s: Seq<u8>, pos: nat) -> Result<(Self, nat), Error> {
        match parse_width(Width::Be32, s, pos) {
            Ok((t, p)) => Ok((Self::spec_from_tag(t), p)),
            Err(e) => Err(e),
        }
    }

    pub fn tag(&self) -> (r: u32)
        ensures
            r == self.spec_tag(),
    {
        match self {
            PlayStatusType::Success => 0,
            PlayStatusType::OutdatedClient => 1,
            PlayStatusType::OutdatedServer => 2,
            PlayStatusType::PlayerSpawn => 3,
            PlayStatusType::InvalidTenant => 4,
            PlayStatusType::EduToVanillaMismatch => 5,
            PlayStatusType::VanillaToEduMismatch => 6,
            PlayStatusType::ServerIsFull => 7,
            PlayStatusType::EditorToVanillaMismatch => 8,
            PlayStatusType::VanillaToEditorMismatch => 9,
            PlayStatusType::Invalid => 10,
        }
    }

    pub fn from_tag(t: u32) -> (r: Self)
        ensures
            r == Self::spec_from_tag(t),
    {
        if t == 0 {
            PlayStatusType::Success
        } else if t == 1 {
            PlayStatusType::OutdatedClient
        } else if t == 2 {
            PlayStatusType::OutdatedServer
        } else if t == 3 {
            PlayStatusType::PlayerSpawn
        } else if t == 4 {
            PlayStatusType::InvalidTenant
        } else if t == 5 {
            PlayStatusType::EduToVanillaMismatch
        } else if t == 6 {
            PlayStatusType::VanillaToEduMismatch
        } else if t == 7 {
            PlayStatusType::ServerIsFull
        } else if t == 8 {
            PlayStatusType::EditorToVanillaMismatch
        } else if t == 9 {
            PlayStatusType::VanillaToEditorMismatch
        } else {
            PlayStatusType::Invalid
        }
    }

    pub fn serialize(&self, out: &mut Vec<u8>)
        ensures
            final(out)@ == old(out)@ + self.spec_bytes(),
    {
        write_width(out, Width::Be32, self.tag());
    }

    pub fn deserialize(buf: &[u8], pos: usize) -> (r: Result<(Self, usize), Error>)
        ensures
            agrees(r, Self::parse(buf@, pos as nat), buf@.len()),
    {
        match read_width(buf, pos, Width::Be32) {
            Ok((t, p)) => Ok((Self::from_tag(t), p)),
            Err(e) => Err(e),
        }
    }

    /// Every variant's tag decodes back to that variant.
    pub proof fn lemma_tag_round_trip(self)
        ensures
            Self::spec_from_tag(self.spec_tag()) == self,
    {
    }

    /// A tag that no variant carries decodes to `Invalid`, never to an error.
    pub proof fn lemma_unknown_tag(t: u32)
        requires
            forall|e: Self| e.spec_tag() != t,
        ensures
            Self::spec_from_tag(t) == PlayStatusType::Invalid,
    {
        if Self::spec_from_tag(t) != PlayStatusType::Invalid {
            assert(Self::spec_from_tag(t).spec_tag() == t);
        }
    }

    /// Decoding the bytes of a variant gives it back and consumes exactly those bytes.
    pub proof fn lemma_round_trip(self, s: Seq<u8>, pos: nat)
        requires
            holds_at(s, pos, self.spec_bytes()),
        ensures
            Self::parse(s, pos) == Ok::<(Self, nat), Error>((self, pos + self.spec_bytes().len())),
    {
        lemma_width_round_trip(Width::Be32, self.spec_tag(), s, pos);
    }
}

/// The kind of a text message; it decides which text fields go on the wire.
#[derive(Debug, Clone, Copy, PartialEq, Eq, Structural)]
pub enum TextType {
    Raw,
    Chat,
    Translation,
    Popup,
    JukeboxPopup,
    Tip,
    System,
    Whisper,
    Announcement,
    ObjectWhisper,
    Object,
    ObjectAnnouncement,
    Invalid,
}

impl Default for TextType {
    fn default() -> (r: Self)
        ensures
            r == TextType::Invalid,
    {
        TextType::Invalid
    }
}

impl TextType {
    /// The wire integer each variant is tagged with.
    pub open spec fn spec_tag(self) -> u32 {
        match self {
            TextType::Raw => 0,
            TextType::Chat => 1,
            TextType::Translation => 2,
            TextType::Popup => 3,
            TextType::JukeboxPopup => 4,
            TextType::Tip => 5,
            TextType::System => 6,
            TextType::Whisper => 7,
            TextType::Announcement => 8,
            TextType::ObjectWhisper => 9,
            TextType::Object => 10,
            TextType::ObjectAnnouncement => 11,
            TextType::Invalid => 12,
        }
    }

    /// The variant a wire integer decodes to; a tag no variant carries gives `Invalid`.
    pub open spec fn spec_from_tag(t: u32) -> Self {
        if t == 0 {
            TextType::Raw
        } else if t == 1 {
            TextType::Chat
        } else if t == 2 {
            TextType::Translation
        } else if t == 3 {
            TextType::Popup
        } else if t == 4 {
            TextType::JukeboxPopup
        } else if t == 5 {
            TextType::Tip
        } else if t == 6 {
            TextType::System
        } else if t == 7 {
            TextType::Whisper
        } else if t == 8 {
            TextType::Announcement
        } else if t == 9 {
            TextType::ObjectWhisper
        } else if t == 10 {
            TextType::Object
        } else if t == 11 {
            TextType::ObjectAnnouncement
        } else {
            TextType::Invalid
        }
    }

    pub open spec fn spec_bytes(self) -> Seq<u8> {
        width_bytes(Width::Byte, self.spec_tag())
    }

    pub open spec fn parse(s: Seq<u8>, pos: nat) -> Result<(Self, nat), Error> {
        match parse_width(Width::Byte, s, pos) {
            Ok((t, p)) => Ok((Self::spec_from_tag(t), p)),
            Err(e) => Err(e),
        }
    }

    pub fn tag(&self) -> (r: u32)
        ensures
            r == self.spec_tag(),
    {
        match self {
            TextType::Raw => 0,
            TextType::Chat => 1,
            TextType::Translation => 2,
            TextType::Popup => 3,
            TextType::JukeboxPopup => 4,
            TextType::Tip => 5,
            TextType::System => 6,
            TextType::Whisper => 7,
            TextType::Announcement => 8,
            TextType::ObjectWhisper => 9,
            TextType::Object => 10,
            TextType::ObjectAnnouncement => 11,
            TextType::Invalid => 12,
        }
    }

    pub fn from_tag(t: u32) -> (r: Self)
        ensures
            r == Self::spec_from_tag(t),
    {
        if t == 0 {
            TextType::Raw
        } else if t == 1 {
            TextType::Chat
        } else if t == 2 {
            TextType::Translation
        } else if t == 3 {
            TextType::Popup
        } else if t == 4 {
            TextType::JukeboxPopup
        } else if t == 5 {
            TextType::Tip
        } else if t == 6 {
            TextType::System
        } else if t == 7 {
            TextType::Whisper
        } else if t == 8 {
            TextType::Announcement
        } else if t == 9 {
            TextType::ObjectWhisper
        } else if t == 10 {
            TextType::Object
        } else if t == 11 {
            TextType::ObjectAnnouncement
        } else {
            TextType::Invalid
        }
    }

    pub fn serialize(&self, out: &mut Vec<u8>)
        ensures
            final(out)@ == old(out)@ + self.spec_bytes(),
    {
        write_width(out, Width::Byte, self.tag());
    }

    pub fn deserialize(buf: &[u8], pos: usize) -> (r: Result<(Self, usize), Error>)
        ensures
            agrees(r, Self::parse(buf@, pos as nat), buf@.len()),
    {
        match read_width(buf, pos, Width::Byte) {
            Ok((t, p)) => Ok((Self::from_tag(t), p)),
            Err(e) => Err(e),
        }
    }

    /// Every variant's tag decodes back to that variant.
    pub proof fn lemma_tag_round_trip(self)
        ensures
            Self::spec_from_tag(self.spec_tag()) == self,
    {
    }

    /// A tag that no variant carries decodes to `Invalid`, never to an error.
    pub proof fn lemma_unknown_tag(t: u32)
        requires
            forall|e: Self| e.spec_tag() != t,
        ensures
            Self::spec_from_tag(t) == TextType::Invalid,
    {
        if Self::spec_from_tag(t) != TextType::Invalid {
            assert(Self::spec_from_tag(t).spec_tag() == t);
        }
    }

    /// Decoding the bytes of a variant gives it back and consumes exactly those bytes.
    pub proof fn lemma_round_trip(self, s: Seq<u8>, pos: nat)
        requires
            holds_at(s, pos, self.spec_bytes()),
        ensures
            Self::parse(s, pos) == Ok::<(Self, nat), Error>((self, pos + self.spec_bytes().len())),
    {
        lemma_width_round_trip(Width::Byte, self.spec_tag(), s, pos);
    }
}

/// An interaction of a player with an entity.
#[derive(Debug, Clone, Copy, PartialEq, Eq, Structural)]
pub enum InteractAction {
    LeaveVehicle,
    MouseOverEntity,
    NPCOpen,
    OpenInventory,
    Invalid,
}

impl Default for InteractAction {
    fn default() -> (r: Self)
        ensures
            r == InteractAction::Invalid,
    {
        InteractAction::Invalid
    }
}

impl InteractAction {
    /// The wire integer each variant is tagged with.
    pub open spec fn spec_tag(self) -> u32 {
        match self {
            InteractAction::LeaveVehicle => 3,
            InteractAction::MouseOverEntity => 4,
            InteractAction::NPCOpen => 5,
            InteractAction::OpenInventory => 6,
            InteractAction::Invalid => 7,
        }
    }

    /// The variant a wire integer decodes to; a tag no variant carries gives `Invalid`.
    pub open spec fn spec_from_tag(t: u32) -> Self {
        if t == 3 {
            InteractAction::LeaveVehicle
        } else if t == 4 {
            InteractAction::MouseOverEntity
        } else if t == 5 {
            InteractAction::NPCOpen
        } else if t == 6 {
            InteractAction::OpenInventory
        } else {
            InteractAction::Invalid
        }
    }

    pub open spec fn spec_bytes(self) -> Seq<u8> {
        width_bytes(Width::Byte, self.spec_tag())
    }

    pub open spec fn parse(s: Seq<u8>, pos: nat) -> Result<(Self, nat), Error> {
        match parse_width(Width::Byte, s, pos) {
            Ok((t, p)) => Ok((Self::spec_from_tag(t), p)),
            Err(e) => Err(e),
        }
    }

    pub fn tag(&self) -> (r: u32)
        ensures
            r == self.spec_tag(),
    {
        match self {
            InteractAction::LeaveVehicle => 3,
            InteractAction::MouseOverEntity => 4,
            InteractAction::NPCOpen => 5,
            InteractAction::OpenInventory => 6,
            InteractAction::Invalid => 7,
        }
    }

    pub fn from_tag(t: u32) -> (r: Self)
        ensures
            r == Self::spec_from_tag(t),
    {
        if t == 3 {
            InteractAction::LeaveVehicle
        } else if t == 4 {
            InteractAction::MouseOverEntity
        } else if t == 5 {
            InteractAction::NPCOpen
        } else if t == 6 {
            InteractAction::OpenInventory
        } else {
            InteractAction::Invalid
        }
    }

    pub fn serialize(&self, out: &mut Vec<u8>)
        ensures
            final(out)@ == old(out)@ + self.spec_bytes(),
    {
        write_width(out, Width::Byte, self.tag());
    }

    pub fn deserialize(buf: &[u8], pos: usize) -> (r: Result<(Self, usize), Error>)
        ensures
            agrees(r, Self::parse(buf@, pos as nat), buf@.len()),
    {
        match read_width(buf, pos, Width::Byte) {
            Ok((t, p)) => Ok((Self::from_tag(t), p)),
            Err(e) => Err(e),
        }
    }

    /// Every variant's tag decodes back to that variant.
    pub proof fn lemma_tag_round_trip(self)
        ensures
            Self::spec_from_tag(self.spec_tag()) == self,
    {
    }

    /// A tag that no variant carries decodes to `Invalid`, never to an error.
    pub proof fn lemma_unknown_tag(t: u32)
        requires
            forall|e: Self| e.spec_tag() != t,
        ensures
            Self::spec_from_tag(t) == InteractAction::Invalid,
    {
        if Self::spec_from_tag(t) != InteractAction::Invalid {
            assert(Self::spec_from_tag(t).spec_tag() == t);
        }
    }

    /// Decoding the bytes of a variant gives it back and consumes exactly those bytes.
    pub proof fn lemma_round_trip(self, s: Seq<u8>, pos: nat)
        requires
            holds_at(s, pos, self.spec_bytes()),
        ensures
            Self::parse(s, pos) == Ok::<(Self, nat), Error>((self, pos + self.spec_bytes().len())),
    {
        lemma_width_round_trip(Width::Byte, self.spec_tag(), s, pos);
    }
}

} // verus!
