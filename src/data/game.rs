//! Tagged-variant types describing a game and its world.
use crate::error::Error;
use crate::wire::{
    Codec, Encode, Width, agrees, agrees_view, bool_bytes, holds_at, lemma_bool_round_trip,
    lemma_holds_at_concat, lemma_var_text_round_trip, lemma_width_round_trip, parse_bool,
    parse_var_text, parse_width, read_bool, read_var_text, read_width, text_fits, u32_le_bytes,
    var_bytes, var_text, width_bytes, write_bool, write_u32_le, write_var_text, write_var_u32,
    write_width,
};
use vstd::prelude::*;

verus! {

/// The game mode of a player or a world.
#[derive(Debug, Clone, Copy, PartialEq, Eq, Structural)]
pub enum GameType {
    Survival,
    Creative,
    Adventure,
    SurvivalSpectator,
    CreativeSpectator,
    Fallback,
}

impl Default for GameType {
    fn default() -> (r: Self)
        ensures
            r == GameType::Fallback,
    {
        GameType::Fallback
    }
}

impl GameType {
    /// The wire integer each variant is tagged with.
    pub open spec fn spec_tag(self) -> u32 {
        match self {
            GameType::Survival => 0,
            GameType::Creative => 1,
            GameType::Adventure => 2,
            GameType::SurvivalSpectator => 3,
            GameType::CreativeSpectator => 4,
            GameType::Fallback => 5,
        }
    }

    /// The variant a wire integer decodes to; a tag no variant carries gives `Fallback`.
    pub open spec fn spec_from_tag(t: u32) -> Self {
        if t == 0 {
            GameType::Survival
        } else if t == 1 {
            GameType::Creative
        } else if t == 2 {
            GameType::Adventure
        } else if t == 3 {
            GameType::SurvivalSpectator
        } else if t == 4 {
            GameType::CreativeSpectator
        } else {
            GameType::Fallback
        }
    }

    pub open spec fn spec_bytes(self) -> Seq<u8> {
        width_bytes(Width::Var, self.spec_tag())
    }

    pub open spec fn parse(s: Seq<u8>, pos: nat) -> Result<(Self, nat), Error> {
        match parse_width(Width::Var, s, pos) {
            Ok((t, p)) => Ok((Self::spec_from_tag(t), p)),
            Err(e) => Err(e),
        }
    }

    pub fn tag(&self) -> (r: u32)
        ensures
            r == self.spec_tag(),
    {
        match self {
            GameType::Survival => 0,
            GameType::Creative => 1,
            GameType::Adventure => 2,
            GameType::SurvivalSpectator => 3,
            GameType::CreativeSpectator => 4,
            GameType::Fallback => 5,
        }
    }

    pub fn from_tag(t: u32) -> (r: Self)
        ensures
            r == Self::spec_from_tag(t),
    {
        if t == 0 {
            GameType::Survival
        } else if t == 1 {
            GameType::Creative
        } else if t == 2 {
            GameType::Adventure
        } else if t == 3 {
            GameType::SurvivalSpectator
        } else if t == 4 {
            GameType::CreativeSpectator
        } else {
            GameType::Fallback
        }
    }

    pub fn serialize(&self, out: &mut Vec<u8>)
        ensures
            final(out)@ == old(out)@ + self.spec_bytes(),
    {
        write_width(out, Width::Var, self.tag());
    }

    pub fn deserialize(buf: &[u8], pos: usize) -> (r: Result<(Self, usize), Error>)
        ensures
            agrees(r, Self::parse(buf@, pos as nat), buf@.len()),
    {
        match read_width(buf, pos, Width::Var) {
            Ok((t, p)) => Ok((Self::from_tag(t), p)),
            Err(e) => Err(e),
        }
    }

    /// Every variant's tag decodes back to that variant.
    pub proof fn lemma_tag_round_trip(self)
        ensures
            Self::spec_from_tag(self.spec_tag()) == self,
    {
    }

    /// A tag that no variant carries decodes to `Fallback`, never to an error.
    pub proof fn lemma_unknown_tag(t: u32)
        requires
            forall|e: Self| e.spec_tag() != t,
        ensures
            Self::spec_from_tag(t) == GameType::Fallback,
    {
        if Self::spec_from_tag(t) != GameType::Fallback {
            assert(Self::spec_from_tag(t).spec_tag() == t);
        }
    }

    /// Decoding the bytes of a variant gives it back and consumes exactly those bytes.
    pub proof fn lemma_round_trip(self, s: Seq<u8>, pos: nat)
        requires
            holds_at(s, pos, self.spec_bytes()),
        ensures
            Self::parse(s, pos) == Ok::<(Self, nat), Error>((self, pos + self.spec_bytes().len())),
    {
        lemma_width_round_trip(Width::Var, self.spec_tag(), s, pos);
    }
}

/// How the spawn biome of a world is chosen.
#[derive(Debug, Clone, Copy, PartialEq, Eq, Structural)]
pub enum SpawnBiomeType {
    Default,
    UserDefined,
}

impl Default for SpawnBiomeType {
    fn default() -> (r: Self)
        ensures
            r == SpawnBiomeType::Default,
    {
        SpawnBiomeType::Default
    }
}

impl SpawnBiomeType {
    /// The wire integer each variant is tagged with.
    pub open spec fn spec_tag(self) -> u32 {
        match self {
            SpawnBiomeType::Default => 0,
            SpawnBiomeType::UserDefined => 1,
        }
    }

    /// The variant a wire integer decodes to; a tag no variant carries gives `Default`.
    pub open spec fn spec_from_tag(t: u32) -> Self {
        if t == 1 {
            SpawnBiomeType::UserDefined
        } else {
            SpawnBiomeType::Default
        }
    }

    pub open spec fn spec_bytes(self) -> Seq<u8> {
        width_bytes(Width::Le16, self.spec_tag())
    }

    pub open spec fn parse(s: Seq<u8>, pos: nat) -> Result<(Self, nat), Error> {
        match parse_width(Width::Le16, s, pos) {
            Ok((t, p)) => Ok((Self::spec_from_tag(t), p)),
            Err(e) => Err(e),
        }
    }

    pub fn tag(&self) -> (r: u32)
        ensures
            r == self.spec_tag(),
    {
        match self {
            SpawnBiomeType::Default => 0,
            SpawnBiomeType::UserDefined => 1,
        }
    }

    pub fn from_tag(t: u32) -> (r: Self)
        ensures
            r == Self::spec_from_tag(t),
    {
        if t == 1 {
            SpawnBiomeType::UserDefined
        } else {
            SpawnBiomeType::Default
        }
    }

    pub fn serialize(&self, out: &mut Vec<u8>)
        ensures
            final(out)@ == old(out)@ + self.spec_bytes(),
    {
        write_width(out, Width::Le16, self.tag());
    }

    pub fn deserialize(buf: &[u8], pos: usize) -> (r: Result<(Self, usize), Error>)
        ensures
            agrees(r, Self::parse(buf@, pos as nat), buf@.len()),
    {
        match read_width(buf, pos, Width::Le16) {
            Ok((t, p)) => Ok((Self::from_tag(t), p)),
            Err(e) => Err(e),
        }
    }

    /// Every variant's tag decodes back to that variant.
    pub proof fn lemma_tag_round_trip(self)
        ensures
            Self::spec_from_tag(self.spec_tag()) == self,
    {
    }

    /// A tag that no variant carries decodes to `Default`, never to an error.
    pub proof fn lemma_unknown_tag(t: u32)
        requires
            forall|e: Self| e.spec_tag() != t,
        ensures
            Self::spec_from_tag(t) == SpawnBiomeType::Default,
    {
        if Self::spec_from_tag(t) != SpawnBiomeType::Default {
            assert(Self::spec_from_tag(t).spec_tag() == t);
        }
    }

    /// Decoding the bytes of a variant gives it back and consumes exactly those bytes.
    pub proof fn lemma_round_trip(self, s: Seq<u8>, pos: nat)
        requires
            holds_at(s, pos, self.spec_bytes()),
        ensures
            Self::parse(s, pos) == Ok::<(Self, nat), Error>((self, pos + self.spec_bytes().len())),
    {
        lemma_width_round_trip(Width::Le16, self.spec_tag(), s, pos);
    }
}

/// Whether and how a world is an editor world.
#[derive(Debug, Clone, Copy, PartialEq, Eq, Structural)]
pub enum EditorWorldType {
    NotEditor,
    Project,
    TestLevel,
    Invalid,
}

impl Default for EditorWorldType {
    fn default() -> (r: Self)
        ensures
            r == EditorWorldType::Invalid,
    {
        EditorWorldType::Invalid
    }
}

impl EditorWorldType {
    /// The wire integer each variant is tagged with.
    pub open spec fn spec_tag(self) -> u32 {
        match self {
            EditorWorldType::NotEditor => 0,
            EditorWorldType::Project => 1,
            EditorWorldType::TestLevel => 2,
            EditorWorldType::Invalid => 3,
        }
    }

    /// The variant a wire integer decodes to; a tag no variant carries gives `Invalid`.
    pub open spec fn spec_from_tag(t: u32) -> Self {
        if t == 0 {
            EditorWorldType::NotEditor
        } else if t == 1 {
            EditorWorldType::Project
        } else if t == 2 {
            EditorWorldType::TestLevel
        } else {
            EditorWorldType::Invalid
        }
    }

    pub open spec fn spec_bytes(self) -> Seq<u8> {
        width_bytes(Width::Var, self.spec_tag())
    }

    pub open spec fn parse(s: Seq<u8>, pos: nat) -> Result<(Self, nat), Error> {
        match parse_width(Width::Var, s, pos) {
            Ok((t, p)) => Ok((Self::spec_from_tag(t), p)),
            Err(e) => Err(e),
        }
    }

    pub fn tag(&self) -> (r: u32)
        ensures
            r == self.spec_tag(),
    {
        match self {
            EditorWorldType::NotEditor => 0,
            EditorWorldType::Project => 1,
            EditorWorldType::TestLevel => 2,
            EditorWorldType::Invalid => 3,
        }
    }

    pub fn from_tag(t: u32) -> (r: Self)
        ensures
            r == Self::spec_from_tag(t),
    {
        if t == 0 {
            EditorWorldType::NotEditor
        } else if t == 1 {
            EditorWorldType::Project
        } else if t == 2 {
            EditorWorldType::TestLevel
        } else {
            EditorWorldType::Invalid
        }
    }

    pub fn serialize(&self, out: &mut Vec<u8>)
        ensures
            final(out)@ == old(out)@ + self.spec_bytes(),
    {
        write_width(out, Width::Var, self.tag());
    }

    pub fn deserialize(buf: &[u8], pos: usize) -> (r: Result<(Self, usize), Error>)
        ensures
            agrees(r, Self::parse(buf@, pos as nat), buf@.len()),
    {
        match read_width(buf, pos, Width::Var) {
            Ok((t, p)) => Ok((Self::from_tag(t), p)),
            Err(e) => Err(e),
        }
    }

    /// Every variant's tag decodes back to that variant.
    pub proof fn lemma_tag_round_trip(self)
        ensures
            Self::spec_from_tag(self.spec_tag()) == self,
    {
    }

    /// A tag that no variant carries decodes to `Invalid`, never to an error.
    pub proof fn lemma_unknown_tag(t: u32)
        requires
            forall|e: Self| e.spec_tag() != t,
        ensures
            Self::spec_from_tag(t) == EditorWorldType::Invalid,
    {
        if Self::spec_from_tag(t) != EditorWorldType::Invalid {
            assert(Self::spec_from_tag(t).spec_tag() == t);
        }
    }

    /// Decoding the bytes of a variant gives it back and consumes exactly those bytes.
    pub proof fn lemma_round_trip(self, s: Seq<u8>, pos: nat)
        requires
            holds_at(s, pos, self.spec_bytes()),
        ensures
            Self::parse(s, pos) == Ok::<(Self, nat), Error>((self, pos + self.spec_bytes().len())),
    {
        lemma_width_round_trip(Width::Var, self.spec_tag(), s, pos);
    }
}

/// Who may join a game through a broadcast.
#[derive(Debug, Clone, Copy, PartialEq, Eq, Structural)]
pub enum GamePublishSetting {
    NoMultiplayer,
    InviteOnly,
    FriendsOnly,
    FriendsOfFriends,
    Public,
    Invalid,
}

impl Default for GamePublishSetting {
    fn default() -> (r: Self)
        ensures
            r == GamePublishSetting::Invalid,
    {
        GamePublishSetting::Invalid
    }
}

impl GamePublishSetting {
    /// The wire integer each variant is tagged with.
    pub open spec fn spec_tag(self) -> u32 {
        match self {
            GamePublishSetting::NoMultiplayer => 0,
            GamePublishSetting::InviteOnly => 1,
            GamePublishSetting::FriendsOnly => 2,
            GamePublishSetting::FriendsOfFriends => 3,
            GamePublishSetting::Public => 4,
            GamePublishSetting::Invalid => 5,
        }
    }

    /// The variant a wire integer decodes to; a tag no variant carries gives `Invalid`.
    pub open spec fn spec_from_tag(t: u32) -> Self {
        if t == 0 {
            GamePublishSetting::NoMultiplayer
        } else if t == 1 {
            GamePublishSetting::InviteOnly
        } else if t == 2 {
            GamePublishSetting::FriendsOnly
        } else if t == 3 {
            GamePublishSetting::FriendsOfFriends
        } else if t == 4 {
            GamePublishSetting::Public
        } else {
            GamePublishSetting::Invalid
        }
    }

    pub open spec fn spec_bytes(self) -> Seq<u8> {
        width_bytes(Width::Var, self.spec_tag())
    }

    pub open spec fn parse(s: Seq<u8>, pos: nat) -> Result<(Self, nat), Error> {
        match parse_width(Width::Var, s, pos) {
            Ok((t, p)) => Ok((Self::spec_from_tag(t), p)),
            Err(e) => Err(e),
        }
    }

    pub fn tag(&self) -> (r: u32)
        ensures
            r == self.spec_tag(),
    {
        match self {
            GamePublishSetting::NoMultiplayer => 0,
            GamePublishSetting::InviteOnly => 1,
            GamePublishSetting::FriendsOnly => 2,
            GamePublishSetting::FriendsOfFriends => 3,
            GamePublishSetting::Public => 4,
            GamePublishSetting::Invalid => 5,
        }
    }

    pub fn from_tag(t: u32) -> (r: Self)
        ensures
            r == Self::spec_from_tag(t),
    {
        if t == 0 {
            GamePublishSetting::NoMultiplayer
        } else if t == 1 {
            GamePublishSetting::InviteOnly
        } else if t == 2 {
            GamePublishSetting::FriendsOnly
        } else if t == 3 {
            GamePublishSetting::FriendsOfFriends
        } else if t == 4 {
            GamePublishSetting::Public
        } else {
            GamePublishSetting::Invalid
        }
    }

    pub fn serialize(&self, out: &mut Vec<u8>)
        ensures
            final(out)@ == old(out)@ + self.spec_bytes(),
    {
        write_width(out, Width::Var, self.tag());
    }

    pub fn deserialize(buf: &[u8], pos: usize) -> (r: Result<(Self, usize), Error>)
        ensures
            agrees(r, Self::parse(buf@, pos as nat), buf@.len()),
    {
        match read_width(buf, pos, Width::Var) {
            Ok((t, p)) => Ok((Self::from_tag(t), p)),
            Err(e) => Err(e),
        }
    }

    /// Every variant's tag decodes back to that variant.
    pub proof fn lemma_tag_round_trip(self)
        ensures
            Self::spec_from_tag(self.spec_tag()) == self,
    {
    }

    /// A tag that no variant carries decodes to `Invalid`, never to an error.
    pub proof fn lemma_unknown_tag(t: u32)
        requires
            forall|e: Self| e.spec_tag() != t,
        ensures
            Self::spec_from_tag(t) == GamePublishSetting::Invalid,
    {
        if Self::spec_from_tag(t) != GamePublishSetting::Invalid {
            assert(Self::spec_from_tag(t).spec_tag() == t);
        }
    }

    /// Decoding the bytes of a variant gives it back and consumes exactly those bytes.
    pub proof fn lemma_round_trip(self, s: Seq<u8>, pos: nat)
        requires
            holds_at(s, pos, self.spec_bytes()),
        ensures
            Self::parse(s, pos) == Ok::<(Self, nat), Error>((self, pos + self.spec_bytes().len())),
    {
        lemma_width_round_trip(Width::Var, self.spec_tag(), s, pos);
    }
}

/// The permission level of a player.
#[derive(Debug, Clone, Copy, PartialEq, Eq, Structural)]
pub enum PlayerPermission {
    Visitor,
    Member,
    Operator,
    Custom,
    Invalid,
}

impl Default for PlayerPermission {
    fn default() -> (r: Self)
        ensures
            r == PlayerPermission::Invalid,
    {
        PlayerPermission::Invalid
    }
}

impl PlayerPermission {
    /// The wire integer each variant is tagged with.
    pub open spec fn spec_tag(self) -> u32 {
        match self {
            PlayerPermission::Visitor => 0,
            PlayerPermission::Member => 1,
            PlayerPermission::Operator => 2,
            PlayerPermission::Custom => 3,
            PlayerPermission::Invalid => 4,
        }
    }

    /// The variant a wire integer decodes to; a tag no variant carries gives `Invalid`.
    pub open spec fn spec_from_tag(t: u32) -> Self {
        if t == 0 {
            PlayerPermission::Visitor
        } else if t == 1 {
            PlayerPermission::Member
        } else if t == 2 {
            PlayerPermission::Operator
        } else if t == 3 {
            PlayerPermission::Custom
        } else {
            PlayerPermission::Invalid
        }
    }

    pub open spec fn spec_bytes(self) -> Seq<u8> {
        width_bytes(Width::Var, self.spec_tag())
    }

    pub open spec fn parse(s: Seq<u8>, pos: nat) -> Result<(Self, nat), Error> {
        match parse_width(Width::Var, s, pos) {
            Ok((t, p)) => Ok((Self::spec_from_tag(t), p)),
            Err(e) => Err(e),
        }
    }

    pub fn tag(&self) -> (r: u32)
        ensures
            r == self.spec_tag(),
    {
        match self {
            PlayerPermission::Visitor => 0,
            PlayerPermission::Member => 1,
            PlayerPermission::Operator => 2,
            PlayerPermission::Custom => 3,
            PlayerPermission::Invalid => 4,
        }
    }

    pub fn from_tag(t: u32) -> (r: Self)
        ensures
            r == Self::spec_from_tag(t),
    {
        if t == 0 {
            PlayerPermission::Visitor
        } else if t == 1 {
            PlayerPermission::Member
        } else if t == 2 {
            PlayerPermission::Operator
        } else if t == 3 {
            PlayerPermission::Custom
        } else {
            PlayerPermission::Invalid
        }
    }

    pub fn serialize(&self, out: &mut Vec<u8>)
        ensures
            final(out)@ == old(out)@ + self.spec_bytes(),
    {
        write_width(out, Width::Var, self.tag());
    }

    pub fn deserialize(buf: &[u8], pos: usize) -> (r: Result<(Self, usize), Error>)
        ensures
            agrees(r, Self::parse(buf@, pos as nat), buf@.len()),
    {
        match read_width(buf, pos, Width::Var) {
            Ok((t, p)) => Ok((Self::from_tag(t), p)),
            Err(e) => Err(e),
        }
    }

    /// Every variant's tag decodes back to that variant.
    pub proof fn lemma_tag_round_trip(self)
        ensures
            Self::spec_from_tag(self.spec_tag()) == self,
    {
    }

    /// A tag that no variant carries decodes to `Invalid`, never to an error.
    pub proof fn lemma_unknown_tag(t: u32)
        requires
            forall|e: Self| e.spec_tag() != t,
        ensures
            Self::spec_from_tag(t) == PlayerPermission::Invalid,
    {
        if Self::spec_from_tag(t) != PlayerPermission::Invalid {
            assert(Self::spec_from_tag(t).spec_tag() == t);
        }
    }

    /// Decoding the bytes of a variant gives it back and consumes exactly those bytes.
    pub proof fn lemma_round_trip(self, s: Seq<u8>, pos: nat)
        requires
            holds_at(s, pos, self.spec_bytes()),
        ensures
            Self::parse(s, pos) == Ok::<(Self, nat), Error>((self, pos + self.spec_bytes().len())),
    {
        lemma_width_round_trip(Width::Var, self.spec_tag(), s, pos);
    }
}

/// How far chat is restricted.
#[derive(Debug, Clone, Copy, PartialEq, Eq, Structural)]
pub enum ChatRestriction {
    NoRestriction,
    Dropped,
    Disabled,
    Invalid,
}

impl Default for ChatRestriction {
    fn default() -> (r: Self)
        ensures
            r == ChatRestriction::Invalid,
    {
        ChatRestriction::Invalid
    }
}

impl ChatRestriction {
    /// The wire integer each variant is tagged with.
    pub open spec fn spec_tag(self) -> u32 {
        match self {
            ChatRestriction::NoRestriction => 0,
            ChatRestriction::Dropped => 1,
            ChatRestriction::Disabled => 2,
            ChatRestriction::Invalid => 3,
        }
    }

    /// The variant a wire integer decodes to; a tag no variant carries gives `Invalid`.
    pub open spec fn spec_from_tag(t: u32) -> Self {
        if t == 0 {
            ChatRestriction::NoRestriction
        } else if t == 1 {
            ChatRestriction::Dropped
        } else if t == 2 {
            ChatRestriction::Disabled
        } else {
            ChatRestriction::Invalid
        }
    }

    pub open spec fn spec_bytes(self) -> Seq<u8> {
        width_bytes(Width::Byte, self.spec_tag())
    }

    pub open spec fn parse(s: Seq<u8>, pos: nat) -> Result<(Self, nat), Error> {
        match parse_width(Width::Byte, s, pos) {
            Ok((t, p)) => Ok((Self::spec_from_tag(t), p)),
            Err(e) => Err(e),
        }
    }

    pub fn tag(&self) -> (r: u32)
        ensures
            r == self.spec_tag(),
    {
        match self {
            ChatRestriction::NoRestriction => 0,
            ChatRestriction::Dropped => 1,
            ChatRestriction::Disabled => 2,
            ChatRestriction::Invalid => 3,
        }
    }

    pub fn from_tag(t: u32) -> (r: Self)
        ensures
            r == Self::spec_from_tag(t),
    {
        if t == 0 {
            ChatRestriction::NoRestriction
        } else if t == 1 {
            ChatRestriction::Dropped
        } else if t == 2 {
            ChatRestriction::Disabled
        } else {
            ChatRestriction::Invalid
        }
    }

    pub fn serialize(&self, out: &mut Vec<u8>)
        ensures
            final(out)@ == old(out)@ + self.spec_bytes(),
    {
        write_width(out, Width::Byte, self.tag());
    }

    pub fn deserialize(buf: &[u8], pos: usize) -> (r: Result<(Self, usize), Error>)
        ensures
            agrees(r, Self::parse(buf@, pos as nat), buf@.len()),
    {
        match read_width(buf, pos, Width::Byte) {
            Ok((t, p)) => Ok((Self::from_tag(t), p)),
            Err(e) => Err(e),
        }
    }

    /// Every variant's tag decodes back to that variant.
    pub proof fn lemma_tag_round_trip(self)
        ensures
            Self::spec_from_tag(self.spec_tag()) == self,
    {
    }

    /// A tag that no variant carries decodes to `Invalid`, never to an error.
    pub proof fn lemma_unknown_tag(t: u32)
        requires
            forall|e: Self| e.spec_tag() != t,
        ensures
            Self::spec_from_tag(t) == ChatRestriction::Invalid,
    {
        if Self::spec_from_tag(t) != ChatRestriction::Invalid {
            assert(Self::spec_from_tag(t).spec_tag() == t);
        }
    }

    /// Decoding the bytes of a variant gives it back and consumes exactly those bytes.
    pub proof fn lemma_round_trip(self, s: Seq<u8>, pos: nat)
        requires
            holds_at(s, pos, self.spec_bytes()),
        ensures
            Self::parse(s, pos) == Ok::<(Self, nat), Error>((self, pos + self.spec_bytes().len())),
    {
        lemma_width_round_trip(Width::Byte, self.spec_tag(), s, pos);
    }
}

/// An experimental feature and whether it is on.
#[derive(Debug, Clone, PartialEq, Eq, Default)]
pub struct ExperimentData {
    pub name: String,
    pub enabled: bool,
}

/// The value of a `ExperimentData`, with its text and byte fields as sequences.
pub ghost struct ExperimentDataView {
    pub name: Seq<char>,
    pub enabled: bool,
}

impl View for ExperimentData {
    type V = ExperimentDataView;

    open spec fn view(&self) -> ExperimentDataView {
        ExperimentDataView {
            name: self.name@,
            enabled: self.enabled,
        }
    }
}

impl ExperimentData {
    /// The fields in declaration order.
    pub open spec fn spec_bytes(self) -> Seq<u8> {
        var_text(self.name@)
            + bool_bytes(self.enabled)
    }

    /// Every text and byte field fits its length prefix.
    pub open spec fn wf(self) -> bool {
        text_fits(self.name@)
    }

    pub open spec fn parse(s: Seq<u8>, pos: nat) -> Result<(ExperimentDataView, nat), Error> {
        match parse_var_text(s, pos) {
            Ok((name, p1)) => match parse_bool(s, p1) {
                Ok((enabled, p2)) => Ok((ExperimentDataView { name, enabled }, p2)),
                Err(e) => Err(e),
            },
            Err(e) => Err(e),
        }
    }

    pub fn serialize(&self, out: &mut Vec<u8>)
        ensures
            final(out)@ == old(out)@ + self.spec_bytes(),
    {
        write_var_text(out, &self.name);
        write_bool(out, self.enabled);
        assert(final(out)@ =~= old(out)@ + self.spec_bytes());
    }

    pub fn deserialize(buf: &[u8], pos: usize) -> (r: Result<(Self, usize), Error>)
        ensures
            agrees_view(r, Self::parse(buf@, pos as nat), buf@.len()),
    {
        let (name, p1) = match read_var_text(buf, pos) {
            Ok(x) => x,
            Err(e) => return Err(e),
        };
        let (enabled, p2) = match read_bool(buf, p1) {
            Ok(x) => x,
            Err(e) => return Err(e),
        };
        Ok((ExperimentData { name, enabled }, p2))
    }

    /// Decoding the bytes of a value gives it back and consumes exactly those bytes.
    pub proof fn lemma_round_trip(self, s: Seq<u8>, pos: nat)
        requires
            self.wf(),
            holds_at(s, pos, self.spec_bytes()),
        ensures
            Self::parse(s, pos) == Ok::<(ExperimentDataView, nat), Error>(
                (self@, pos + self.spec_bytes().len()),
            ),
    {
        let t2 = bool_bytes(self.enabled);
        lemma_holds_at_concat(s, pos, var_text(self.name@), t2);
        lemma_var_text_round_trip(s, pos, self.name@);
        let p1 = pos + var_text(self.name@).len();
        lemma_bool_round_trip(s, p1, self.enabled);
    }
}

impl Encode for ExperimentData {
    open spec fn encoding(&self) -> Seq<u8> {
        self.spec_bytes()
    }

    fn encode_into(&self, out: &mut Vec<u8>) {
        self.serialize(out);
    }
}

impl Codec for ExperimentData {
    open spec fn decoding(s: Seq<u8>, pos: nat) -> Result<(ExperimentDataView, nat), Error> {
        ExperimentData::parse(s, pos)
    }

    open spec fn well_formed(&self) -> bool {
        self.wf()
    }

    fn decode_at(buf: &[u8], pos: usize) -> (r: Result<(Self, usize), Error>) {
        ExperimentData::deserialize(buf, pos)
    }

    proof fn lemma_codec_round_trip(&self, s: Seq<u8>, pos: nat) {
        self.lemma_round_trip(s, pos);
    }
}

/// The value of a game rule, tagged by a variable-length discriminant; the
/// float variant holds an IEEE-754 single-precision bit pattern.
#[derive(Debug, Clone, Copy, PartialEq, Eq, Structural)]
pub enum GameRuleData {
    Boolean(bool),
    Integer(u32),
    Float(u32),
    Invalid,
}

impl Default for GameRuleData {
    fn default() -> (r: Self)
        ensures
            r == GameRuleData::Invalid,
    {
        GameRuleData::Invalid
    }
}

impl GameRuleData {
    /// The discriminant, then the variant's value.
    pub open spec fn spec_bytes(self) -> Seq<u8> {
        match self {
            GameRuleData::Boolean(b) => var_bytes(0) + bool_bytes(b),
            GameRuleData::Integer(v) => var_bytes(1) + u32_le_bytes(v),
            GameRuleData::Float(v) => var_bytes(2) + u32_le_bytes(v),
            GameRuleData::Invalid => var_bytes(3),
        }
    }

    pub fn serialize(&self, out: &mut Vec<u8>)
        ensures
            final(out)@ == old(out)@ + self.spec_bytes(),
    {
        match self {
            GameRuleData::Boolean(b) => {
                write_var_u32(out, 0);
                write_bool(out, *b);
            },
            GameRuleData::Integer(v) => {
                write_var_u32(out, 1);
                write_u32_le(out, *v);
            },
            GameRuleData::Float(v) => {
                write_var_u32(out, 2);
                write_u32_le(out, *v);
            },
            GameRuleData::Invalid => write_var_u32(out, 3),
        }
    }
}

/// A game rule: its name, whether players may change it, and its value.
#[derive(Debug, Clone, PartialEq, Eq, Default)]
pub struct GameRule {
    pub name: String,
    pub can_be_modified: bool,
    pub data: GameRuleData,
}

impl GameRule {
    /// The fields in declaration order.
    pub open spec fn spec_bytes(self) -> Seq<u8> {
        var_text(self.name@)
            + bool_bytes(self.can_be_modified)
            + self.data.spec_bytes()
    }

    pub fn serialize(&self, out: &mut Vec<u8>)
        ensures
            final(out)@ == old(out)@ + self.spec_bytes(),
    {
        let ghost o = out@;
        write_var_text(out, &self.name);
        let ghost b1 = var_text(self.name@);
        write_bool(out, self.can_be_modified);
        let ghost b2 = b1 + bool_bytes(self.can_be_modified);
        proof {
            vstd::seq_lib::lemma_concat_associative(o, b1, bool_bytes(self.can_be_modified));
        }
        self.data.serialize(out);
        let ghost b3 = b2 + self.data.spec_bytes();
        proof {
            vstd::seq_lib::lemma_concat_associative(o, b2, self.data.spec_bytes());
        }
    }
}

impl Encode for GameRule {
    open spec fn encoding(&self) -> Seq<u8> {
        self.spec_bytes()
    }

    fn encode_into(&self, out: &mut Vec<u8>) {
        self.serialize(out);
    }
}

} // verus!
