//! Packet bodies of the play phase.
use crate::error::Error;
use crate::wire::{
    Width, agrees, agrees_view, bool_bytes, counted_items, counted_items_fit, holds_at,
    i32_be_bytes, i32_le_bytes, i64_le_bytes, items_view, lemma_bool_round_trip,
    lemma_counted_items_round_trip, lemma_holds_at_concat, lemma_holds_at_concat3,
    lemma_i32_be_round_trip, lemma_i32_le_round_trip, lemma_i64_le_round_trip,
    lemma_u16_texts_round_trip, lemma_u32_le_round_trip, lemma_u8_round_trip,
    lemma_var_bytes_field_round_trip, lemma_var_count_texts_round_trip, lemma_var_i32_round_trip,
    lemma_var_i64_round_trip, lemma_var_text_round_trip, lemma_var_u32_round_trip,
    lemma_var_u64_round_trip, parse_bool, parse_counted_items, parse_i32_be, parse_i32_le,
    parse_i64_le, parse_u16_texts, parse_u32_le, parse_u8, parse_var_bytes_field,
    parse_var_count_texts, parse_var_i32, parse_var_i64, parse_var_text, parse_var_u32,
    parse_var_u64, read_bool, read_counted_items, read_i32_be, read_i32_le, read_i64_le,
    read_u16_texts, read_u32_le, read_u8, read_var_bytes_field, read_var_count_texts, read_var_i32,
    read_var_i64, read_var_text, read_var_u32, read_var_u64, text_fits, texts_view, u16_texts,
    u16_texts_fit, u32_le_bytes, u64_le_bytes, var_bytes, var_bytes_field, var_count_texts,
    var_count_texts_fit, var_i32_bytes, var_i64_bytes, var_text, write_bool, write_bytes,
    write_counted_items, write_i32_be, write_i32_le, write_i64_le, write_u16_texts, write_u32_le,
    write_u64_le, write_u8, write_var_bytes_field, write_var_count_texts, write_var_i32,
    write_var_i64, write_var_text, write_var_u32, write_var_u64,
};
use crate::data::entity::mob::{MobEffectOperation, MobEffectType};
use crate::data::entity::teleport::{MovementMode, TeleportCause};
use crate::data::generic::{InteractAction, PlayStatusType, TextType};
use crate::data::entity::attribute::{Attribute, AttributeView};
use crate::data::game::{ExperimentData, ExperimentDataView};
use crate::data::resource_pack::{
    BehaviourPackInfo, BehaviourPackInfoView, PackURL, PackURLView, ResourcePackResponse,
    StackResourcePack, StackResourcePackView, TexturePackInfo, TexturePackInfoView,
};
use crate::data::block::BlockEntry;
use crate::data::education::EducationSharedResourceURI;
use crate::data::game::{
    ChatRestriction, EditorWorldType, GamePublishSetting, GameRule, GameType, PlayerPermission,
    SpawnBiomeType,
};
use crate::data::item::{ItemEntry, ItemInstance};
use crate::data::player::PlayerMoveSettings;
use crate::data::{Position, Rotation, UBlockPos, Velocity, UUID};
use vstd::prelude::*;

verus! {

/// Sent by a client to log in: its protocol version (big-endian) and its login data.
#[derive(Debug, Clone, PartialEq, Eq, Default)]
pub struct Login {
    pub protocol: i32,
    pub data: Vec<u8>,
}

/// The value of a `Login`, with its text and byte fields as sequences.
pub ghost struct LoginView {
    pub protocol: i32,
    pub data: Seq<u8>,
}

impl View for Login {
    type V = LoginView;

    open spec fn view(&self) -> LoginView {
        LoginView {
            protocol: self.protocol,
            data: self.data@,
        }
    }
}

impl Login {
    /// The fields in declaration order.
    pub open spec fn spec_bytes(self) -> Seq<u8> {
        i32_be_bytes(self.protocol)
            + var_bytes_field(self.data@)
    }

    /// Every text and byte field fits its length prefix.
    pub open spec fn wf(self) -> bool {
        self.data@.len() <= u32::MAX
    }

    pub open spec fn parse(s: Seq<u8>, pos: nat) -> Result<(LoginView, nat), Error> {
        match parse_i32_be(s, pos) {
            Ok((protocol, p1)) => match parse_var_bytes_field(s, p1) {
                Ok((data, p2)) => Ok((LoginView { protocol, data }, p2)),
                Err(e) => Err(e),
            },
            Err(e) => Err(e),
        }
    }

    pub fn serialize(&self, out: &mut Vec<u8>)
        ensures
            final(out)@ == old(out)@ + self.spec_bytes(),
    {
        write_i32_be(out, self.protocol);
        write_var_bytes_field(out, self.data.as_slice());
        assert(final(out)@ =~= old(out)@ + self.spec_bytes());
    }

    pub fn deserialize(buf: &[u8], pos: usize) -> (r: Result<(Self, usize), Error>)
        ensures
            agrees_view(r, Self::parse(buf@, pos as nat), buf@.len()),
    {
        let (protocol, p1) = match read_i32_be(buf, pos) {
            Ok(x) => x,
            Err(e) => return Err(e),
        };
        let (data, p2) = match read_var_bytes_field(buf, p1) {
            Ok(x) => x,
            Err(e) => return Err(e),
        };
        Ok((Login { protocol, data }, p2))
    }

    /// Decoding the bytes of a value gives it back and consumes exactly those bytes.
    pub proof fn lemma_round_trip(self, s: Seq<u8>, pos: nat)
        requires
            self.wf(),
            holds_at(s, pos, self.spec_bytes()),
        ensures
            Self::parse(s, pos) == Ok::<(LoginView, nat), Error>(
                (self@, pos + self.spec_bytes().len()),
            ),
    {
        let t2 = var_bytes_field(self.data@);
        lemma_holds_at_concat(s, pos, i32_be_bytes(self.protocol), t2);
        lemma_i32_be_round_trip(s, pos, self.protocol);
        let p1 = pos + i32_be_bytes(self.protocol).len();
        lemma_var_bytes_field_round_trip(s, p1, self.data@);
    }
}

/// The status of a client joining the game.
#[derive(Debug, Clone, Copy, PartialEq, Eq, Structural, Default)]
pub struct PlayStatus {
    pub status: PlayStatusType,
}

impl PlayStatus {
    /// The fields in declaration order.
    pub open spec fn spec_bytes(self) -> Seq<u8> {
        self.status.spec_bytes()
    }

    pub open spec fn parse(s: Seq<u8>, pos: nat) -> Result<(PlayStatus, nat), Error> {
        match PlayStatusType::parse(s, pos) {
            Ok((status, p1)) => Ok((PlayStatus { status }, p1)),
            Err(e) => Err(e),
        }
    }

    pub fn serialize(&self, out: &mut Vec<u8>)
        ensures
            final(out)@ == old(out)@ + self.spec_bytes(),
    {
        self.status.serialize(out);
        assert(final(out)@ =~= old(out)@ + self.spec_bytes());
    }

    pub fn deserialize(buf: &[u8], pos: usize) -> (r: Result<(Self, usize), Error>)
        ensures
            agrees(r, Self::parse(buf@, pos as nat), buf@.len()),
    {
        let (status, p1) = match PlayStatusType::deserialize(buf, pos) {
            Ok(x) => x,
            Err(e) => return Err(e),
        };
        Ok((PlayStatus { status }, p1))
    }

    /// Decoding the bytes of a value gives it back and consumes exactly those bytes.
    pub proof fn lemma_round_trip(self, s: Seq<u8>, pos: nat)
        requires
            holds_at(s, pos, self.spec_bytes()),
        ensures
            Self::parse(s, pos) == Ok::<(PlayStatus, nat), Error>(
                (self, pos + self.spec_bytes().len()),
            ),
    {
        self.status.lemma_round_trip(s, pos);
    }
}

/// The server's half of the encryption handshake: a signed token.
#[derive(Debug, Clone, PartialEq, Eq, Default)]
pub struct S2CHandshake {
    pub jwt: Vec<u8>,
}

/// The value of a `S2CHandshake`, with its text and byte fields as sequences.
pub ghost struct S2CHandshakeView {
    pub jwt: Seq<u8>,
}

impl View for S2CHandshake {
    type V = S2CHandshakeView;

    open spec fn view(&self) -> S2CHandshakeView {
        S2CHandshakeView {
            jwt: self.jwt@,
        }
    }
}

impl S2CHandshake {
    /// The fields in declaration order.
    pub open spec fn spec_bytes(self) -> Seq<u8> {
        var_bytes_field(self.jwt@)
    }

    /// Every text and byte field fits its length prefix.
    pub open spec fn wf(self) -> bool {
        self.jwt@.len() <= u32::MAX
    }

    pub open spec fn parse(s: Seq<u8>, pos: nat) -> Result<(S2CHandshakeView, nat), Error> {
        match parse_var_bytes_field(s, pos) {
            Ok((jwt, p1)) => Ok((S2CHandshakeView { jwt }, p1)),
            Err(e) => Err(e),
        }
    }

    pub fn serialize(&self, out: &mut Vec<u8>)
        ensures
            final(out)@ == old(out)@ + self.spec_bytes(),
    {
        write_var_bytes_field(out, self.jwt.as_slice());
        assert(final(out)@ =~= old(out)@ + self.spec_bytes());
    }

    pub fn deserialize(buf: &[u8], pos: usize) -> (r: Result<(Self, usize), Error>)
        ensures
            agrees_view(r, Self::parse(buf@, pos as nat), buf@.len()),
    {
        let (jwt, p1) = match read_var_bytes_field(buf, pos) {
            Ok(x) => x,
            Err(e) => return Err(e),
        };
        Ok((S2CHandshake { jwt }, p1))
    }

    /// Decoding the bytes of a value gives it back and consumes exactly those bytes.
    pub proof fn lemma_round_trip(self, s: Seq<u8>, pos: nat)
        requires
            self.wf(),
            holds_at(s, pos, self.spec_bytes()),
        ensures
            Self::parse(s, pos) == Ok::<(S2CHandshakeView, nat), Error>(
                (self@, pos + self.spec_bytes().len()),
            ),
    {
        lemma_var_bytes_field_round_trip(s, pos, self.jwt@);
    }
}

/// The client's answer to the encryption handshake; it has no fields.
#[derive(Debug, Clone, Copy, PartialEq, Eq, Structural, Default)]
pub struct C2SHandshake {}

impl C2SHandshake {
    /// The fields in declaration order.
    pub open spec fn spec_bytes(self) -> Seq<u8> {
        Seq::empty()
    }

    pub open spec fn parse(s: Seq<u8>, pos: nat) -> Result<(C2SHandshake, nat), Error> {
        if pos <= s.len() {
            Ok((C2SHandshake {}, pos))
        } else {
            Err(Error::UnexpectedEnd)
        }
    }

    pub fn serialize(&self, out: &mut Vec<u8>)
        ensures
            final(out)@ == old(out)@ + self.spec_bytes(),
    {
        assert(final(out)@ =~= old(out)@ + self.spec_bytes());
    }

    pub fn deserialize(buf: &[u8], pos: usize) -> (r: Result<(Self, usize), Error>)
        ensures
            agrees(r, Self::parse(buf@, pos as nat), buf@.len()),
    {
        if pos <= buf.len() {
            Ok((C2SHandshake {}, pos))
        } else {
            Err(Error::UnexpectedEnd)
        }
    }

    /// Decoding the bytes of a value gives it back and consumes exactly those bytes.
    pub proof fn lemma_round_trip(self, s: Seq<u8>, pos: nat)
        requires
            holds_at(s, pos, self.spec_bytes()),
        ensures
            Self::parse(s, pos) == Ok::<(C2SHandshake, nat), Error>(
                (self, pos + self.spec_bytes().len()),
            ),
    {
    }
}

/// A client's response during resource pack negotiation, with the packs it names.
#[derive(Debug, Clone, PartialEq, Eq, Default)]
pub struct ResourcePackClientResponse {
    pub response: ResourcePackResponse,
    pub packs: Vec<String>,
}

/// The value of a `ResourcePackClientResponse`, with its text and byte fields as sequences.
pub ghost struct ResourcePackClientResponseView {
    pub response: ResourcePackResponse,
    pub packs: Seq<Seq<char>>,
}

impl View for ResourcePackClientResponse {
    type V = ResourcePackClientResponseView;

    open spec fn view(&self) -> ResourcePackClientResponseView {
        ResourcePackClientResponseView {
            response: self.response,
            packs: texts_view(self.packs@),
        }
    }
}

impl ResourcePackClientResponse {
    /// The fields in declaration order.
    pub open spec fn spec_bytes(self) -> Seq<u8> {
        self.response.spec_bytes()
            + u16_texts(texts_view(self.packs@))
    }

    /// Every text and byte field fits its length prefix.
    pub open spec fn wf(self) -> bool {
        u16_texts_fit(texts_view(self.packs@))
    }

    pub open spec fn parse(s: Seq<u8>, pos: nat) -> Result<(ResourcePackClientResponseView, nat), Error> {
        match ResourcePackResponse::parse(s, pos) {
            Ok((response, p1)) => match parse_u16_texts(s, p1) {
                Ok((packs, p2)) => Ok((ResourcePackClientResponseView { response, packs }, p2)),
                Err(e) => Err(e),
            },
            Err(e) => Err(e),
        }
    }

    pub fn serialize(&self, out: &mut Vec<u8>)
        ensures
            final(out)@ == old(out)@ + self.spec_bytes(),
    {
        self.response.serialize(out);
        write_u16_texts(out, &self.packs);
        assert(final(out)@ =~= old(out)@ + self.spec_bytes());
    }

    pub fn deserialize(buf: &[u8], pos: usize) -> (r: Result<(Self, usize), Error>)
        ensures
            agrees_view(r, Self::parse(buf@, pos as nat), buf@.len()),
    {
        let (response, p1) = match ResourcePackResponse::deserialize(buf, pos) {
            Ok(x) => x,
            Err(e) => return Err(e),
        };
        let (packs, p2) = match read_u16_texts(buf, p1) {
            Ok(x) => x,
            Err(e) => return Err(e),
        };
        Ok((ResourcePackClientResponse { response, packs }, p2))
    }

    /// Decoding the bytes of a value gives it back and consumes exactly those bytes.
    pub proof fn lemma_round_trip(self, s: Seq<u8>, pos: nat)
        requires
            self.wf(),
            holds_at(s, pos, self.spec_bytes()),
        ensures
            Self::parse(s, pos) == Ok::<(ResourcePackClientResponseView, nat), Error>(
                (self@, pos + self.spec_bytes().len()),
            ),
    {
        let t2 = u16_texts(texts_view(self.packs@));
        lemma_holds_at_concat(s, pos, self.response.spec_bytes(), t2);
        self.response.lemma_round_trip(s, pos);
        let p1 = pos + self.response.spec_bytes().len();
        lemma_u16_texts_round_trip(s, p1, texts_view(self.packs@));
    }
}

/// The resource packs a server offers.
#[derive(Debug, Clone, PartialEq, Eq, Default)]
pub struct ResourcePacksInfo {
    pub texture_pack_required: bool,
    pub has_scripts: bool,
    pub forcing_server_packs: bool,
    pub behaviour_packs: Vec<BehaviourPackInfo>,
    pub texture_packs: Vec<TexturePackInfo>,
    pub pack_urls: Vec<PackURL>,
}

/// The value of a `ResourcePacksInfo`, with its text and byte fields as sequences.
pub ghost struct ResourcePacksInfoView {
    pub texture_pack_required: bool,
    pub has_scripts: bool,
    pub forcing_server_packs: bool,
    pub behaviour_packs: Seq<BehaviourPackInfoView>,
    pub texture_packs: Seq<TexturePackInfoView>,
    pub pack_urls: Seq<PackURLView>,
}

impl View for ResourcePacksInfo {
    type V = ResourcePacksInfoView;

    open spec fn view(&self) -> ResourcePacksInfoView {
        ResourcePacksInfoView {
            texture_pack_required: self.texture_pack_required,
            has_scripts: self.has_scripts,
            forcing_server_packs: self.forcing_server_packs,
            behaviour_packs: items_view(self.behaviour_packs@),
            texture_packs: items_view(self.texture_packs@),
            pack_urls: items_view(self.pack_urls@),
        }
    }
}

impl ResourcePacksInfo {
    /// The fields in declaration order.
    pub open spec fn spec_bytes(self) -> Seq<u8> {
        bool_bytes(self.texture_pack_required)
            + (bool_bytes(self.has_scripts)
            + (bool_bytes(self.forcing_server_packs)
            + (counted_items(Width::Le16, self.behaviour_packs@)
            + (counted_items(Width::Le16, self.texture_packs@)
            + counted_items(Width::Var, self.pack_urls@)))))
    }

    /// Every text and byte field fits its length prefix.
    pub open spec fn wf(self) -> bool {
        counted_items_fit(Width::Le16, self.behaviour_packs@)
        && counted_items_fit(Width::Le16, self.texture_packs@)
        && counted_items_fit(Width::Var, self.pack_urls@)
    }

    pub open spec fn parse(s: Seq<u8>, pos: nat) -> Result<(ResourcePacksInfoView, nat), Error> {
        match parse_bool(s, pos) {
            Ok((texture_pack_required, p1)) => match parse_bool(s, p1) {
                Ok((has_scripts, p2)) => match parse_bool(s, p2) {
                    Ok((forcing_server_packs, p3)) => match parse_counted_items::<BehaviourPackInfo>(Width::Le16, s, p3) {
                        Ok((behaviour_packs, p4)) => match parse_counted_items::<TexturePackInfo>(Width::Le16, s, p4) {
                            Ok((texture_packs, p5)) => match parse_counted_items::<PackURL>(Width::Var, s, p5) {
                                Ok((pack_urls, p6)) => Ok(
                                    (
                                        ResourcePacksInfoView {
                                            texture_pack_required,
                                            has_scripts,
                                            forcing_server_packs,
                                            behaviour_packs,
                                            texture_packs,
                                            pack_urls,
                                        },
                                        p6,
                                    ),
                                ),
                                Err(e) => Err(e),
                            },
                            Err(e) => Err(e),
                        },
                        Err(e) => Err(e),
                    },
                    Err(e) => Err(e),
                },
                Err(e) => Err(e),
            },
            Err(e) => Err(e),
        }
    }

    pub fn serialize(&self, out: &mut Vec<u8>)
        ensures
            final(out)@ == old(out)@ + self.spec_bytes(),
    {
        write_bool(out, self.texture_pack_required);
        write_bool(out, self.has_scripts);
        write_bool(out, self.forcing_server_packs);
        write_counted_items(out, Width::Le16, &self.behaviour_packs);
        write_counted_items(out, Width::Le16, &self.texture_packs);
        write_counted_items(out, Width::Var, &self.pack_urls);
        assert(final(out)@ =~= old(out)@ + self.spec_bytes());
    }

    pub fn deserialize(buf: &[u8], pos: usize) -> (r: Result<(Self, usize), Error>)
        ensures
            agrees_view(r, Self::parse(buf@, pos as nat), buf@.len()),
    {
        let (texture_pack_required, p1) = match read_bool(buf, pos) {
            Ok(x) => x,
            Err(e) => return Err(e),
        };
        let (has_scripts, p2) = match read_bool(buf, p1) {
            Ok(x) => x,
            Err(e) => return Err(e),
        };
        let (forcing_server_packs, p3) = match read_bool(buf, p2) {
            Ok(x) => x,
            Err(e) => return Err(e),
        };
        let (behaviour_packs, p4) = match read_counted_items::<BehaviourPackInfo>(buf, p3, Width::Le16) {
            Ok(x) => x,
            Err(e) => return Err(e),
        };
        let (texture_packs, p5) = match read_counted_items::<TexturePackInfo>(buf, p4, Width::Le16) {
            Ok(x) => x,
            Err(e) => return Err(e),
        };
        let (pack_urls, p6) = match read_counted_items::<PackURL>(buf, p5, Width::Var) {
            Ok(x) => x,
            Err(e) => return Err(e),
        };
        Ok(
            (
                ResourcePacksInfo {
                    texture_pack_required,
                    has_scripts,
                    forcing_server_packs,
                    behaviour_packs,
                    texture_packs,
                    pack_urls,
                },
                p6,
            ),
        )
    }

    /// Decoding the bytes of a value gives it back and consumes exactly those bytes.
    #[verifier::rlimit(60)]
    pub proof fn lemma_round_trip(self, s: Seq<u8>, pos: nat)
        requires
            self.wf(),
            holds_at(s, pos, self.spec_bytes()),
        ensures
            Self::parse(s, pos) == Ok::<(ResourcePacksInfoView, nat), Error>(
                (self@, pos + self.spec_bytes().len()),
            ),
    {
        let t6 = counted_items(Width::Var, self.pack_urls@);
        let t5 = counted_items(Width::Le16, self.texture_packs@) + t6;
        let t4 = counted_items(Width::Le16, self.behaviour_packs@) + t5;
        let t3 = bool_bytes(self.forcing_server_packs) + t4;
        let t2 = bool_bytes(self.has_scripts) + t3;
        lemma_holds_at_concat(s, pos, bool_bytes(self.texture_pack_required), t2);
        lemma_bool_round_trip(s, pos, self.texture_pack_required);
        let p1 = pos + bool_bytes(self.texture_pack_required).len();
        lemma_holds_at_concat(s, p1, bool_bytes(self.has_scripts), t3);
        lemma_bool_round_trip(s, p1, self.has_scripts);
        let p2 = p1 + bool_bytes(self.has_scripts).len();
        lemma_holds_at_concat(s, p2, bool_bytes(self.forcing_server_packs), t4);
        lemma_bool_round_trip(s, p2, self.forcing_server_packs);
        let p3 = p2 + bool_bytes(self.forcing_server_packs).len();
        lemma_holds_at_concat(s, p3, counted_items(Width::Le16, self.behaviour_packs@), t5);
        lemma_counted_items_round_trip::<BehaviourPackInfo>(
            Width::Le16,
            s,
            p3,
            self.behaviour_packs@,
        );
        let p4 = p3 + counted_items(Width::Le16, self.behaviour_packs@).len();
        lemma_holds_at_concat(s, p4, counted_items(Width::Le16, self.texture_packs@), t6);
        lemma_counted_items_round_trip::<TexturePackInfo>(Width::Le16, s, p4, self.texture_packs@);
        let p5 = p4 + counted_items(Width::Le16, self.texture_packs@).len();
        lemma_counted_items_round_trip::<PackURL>(Width::Var, s, p5, self.pack_urls@);
    }
}

/// The order in which the client is to apply packs.
#[derive(Debug, Clone, PartialEq, Eq, Default)]
pub struct ResourcePackStack {
    pub texture_pack_required: bool,
    pub behaviour_packs: Vec<StackResourcePack>,
    pub texture_packs: Vec<StackResourcePack>,
    pub base_game_version: String,
    pub experiments: Vec<ExperimentData>,
    pub experiments_previously_toggled: bool,
}

/// The value of a `ResourcePackStack`, with its text and byte fields as sequences.
pub ghost struct ResourcePackStackView {
    pub texture_pack_required: bool,
    pub behaviour_packs: Seq<StackResourcePackView>,
    pub texture_packs: Seq<StackResourcePackView>,
    pub base_game_version: Seq<char>,
    pub experiments: Seq<ExperimentDataView>,
    pub experiments_previously_toggled: bool,
}

impl View for ResourcePackStack {
    type V = ResourcePackStackView;

    open spec fn view(&self) -> ResourcePackStackView {
        ResourcePackStackView {
            texture_pack_required: self.texture_pack_required,
            behaviour_packs: items_view(self.behaviour_packs@),
            texture_packs: items_view(self.texture_packs@),
            base_game_version: self.base_game_version@,
            experiments: items_view(self.experiments@),
            experiments_previously_toggled: self.experiments_previously_toggled,
        }
    }
}

impl ResourcePackStack {
    /// The fields in declaration order.
    pub open spec fn spec_bytes(self) -> Seq<u8> {
        bool_bytes(self.texture_pack_required)
            + (counted_items(Width::Var, self.behaviour_packs@)
            + (counted_items(Width::Var, self.texture_packs@)
            + (var_text(self.base_game_version@)
            + (counted_items(Width::Le32, self.experiments@)
            + bool_bytes(self.experiments_previously_toggled)))))
    }

    /// Every text and byte field fits its length prefix.
    pub open spec fn wf(self) -> bool {
        counted_items_fit(Width::Var, self.behaviour_packs@)
        && counted_items_fit(Width::Var, self.texture_packs@)
        && text_fits(self.base_game_version@)
        && counted_items_fit(Width::Le32, self.experiments@)
    }

    pub open spec fn parse(s: Seq<u8>, pos: nat) -> Result<(ResourcePackStackView, nat), Error> {
        match parse_bool(s, pos) {
            Ok((texture_pack_required, p1)) => match parse_counted_items::<StackResourcePack>(Width::Var, s, p1) {
                Ok((behaviour_packs, p2)) => match parse_counted_items::<StackResourcePack>(Width::Var, s, p2) {
                    Ok((texture_packs, p3)) => match parse_var_text(s, p3) {
                        Ok((base_game_version, p4)) => match parse_counted_items::<ExperimentData>(Width::Le32, s, p4) {
                            Ok((experiments, p5)) => match parse_bool(s, p5) {
                                Ok((experiments_previously_toggled, p6)) => Ok(
                                    (
                                        ResourcePackStackView {
                                            texture_pack_required,
                                            behaviour_packs,
                                            texture_packs,
                                            base_game_version,
                                            experiments,
                                            experiments_previously_toggled,
                                        },
                                        p6,
                                    ),
                                ),
                                Err(e) => Err(e),
                            },
                            Err(e) => Err(e),
                        },
                        Err(e) => Err(e),
                    },
                    Err(e) => Err(e),
                },
                Err(e) => Err(e),
            },
            Err(e) => Err(e),
        }
    }

    pub fn serialize(&self, out: &mut Vec<u8>)
        ensures
            final(out)@ == old(out)@ + self.spec_bytes(),
    {
        write_bool(out, self.texture_pack_required);
        write_counted_items(out, Width::Var, &self.behaviour_packs);
        write_counted_items(out, Width::Var, &self.texture_packs);
        write_var_text(out, &self.base_game_version);
        write_counted_items(out, Width::Le32, &self.experiments);
        write_bool(out, self.experiments_previously_toggled);
        assert(final(out)@ =~= old(out)@ + self.spec_bytes());
    }

    pub fn deserialize(buf: &[u8], pos: usize) -> (r: Result<(Self, usize), Error>)
        ensures
            agrees_view(r, Self::parse(buf@, pos as nat), buf@.len()),
    {
        let (texture_pack_required, p1) = match read_bool(buf, pos) {
            Ok(x) => x,
            Err(e) => return Err(e),
        };
        let (behaviour_packs, p2) = match read_counted_items::<StackResourcePack>(buf, p1, Width::Var) {
            Ok(x) => x,
            Err(e) => return Err(e),
        };
        let (texture_packs, p3) = match read_counted_items::<StackResourcePack>(buf, p2, Width::Var) {
            Ok(x) => x,
            Err(e) => return Err(e),
        };
        let (base_game_version, p4) = match read_var_text(buf, p3) {
            Ok(x) => x,
            Err(e) => return Err(e),
        };
        let (experiments, p5) = match read_counted_items::<ExperimentData>(buf, p4, Width::Le32) {
            Ok(x) => x,
            Err(e) => return Err(e),
        };
        let (experiments_previously_toggled, p6) = match read_bool(buf, p5) {
            Ok(x) => x,
            Err(e) => return Err(e),
        };
        Ok(
            (
                ResourcePackStack {
                    texture_pack_required,
                    behaviour_packs,
                    texture_packs,
                    base_game_version,
                    experiments,
                    experiments_previously_toggled,
                },
                p6,
            ),
        )
    }

    /// Decoding the bytes of a value gives it back and consumes exactly those bytes.
    #[verifier::rlimit(60)]
    pub proof fn lemma_round_trip(self, s: Seq<u8>, pos: nat)
        requires
            self.wf(),
            holds_at(s, pos, self.spec_bytes()),
        ensures
            Self::parse(s, pos) == Ok::<(ResourcePackStackView, nat), Error>(
                (self@, pos + self.spec_bytes().len()),
            ),
    {
        let t6 = bool_bytes(self.experiments_previously_toggled);
        let t5 = counted_items(Width::Le32, self.experiments@) + t6;
        let t4 = var_text(self.base_game_version@) + t5;
        let t3 = counted_items(Width::Var, self.texture_packs@) + t4;
        let t2 = counted_items(Width::Var, self.behaviour_packs@) + t3;
        lemma_holds_at_concat(s, pos, bool_bytes(self.texture_pack_required), t2);
        lemma_bool_round_trip(s, pos, self.texture_pack_required);
        let p1 = pos + bool_bytes(self.texture_pack_required).len();
        lemma_holds_at_concat(s, p1, counted_items(Width::Var, self.behaviour_packs@), t3);
        lemma_counted_items_round_trip::<StackResourcePack>(
            Width::Var,
            s,
            p1,
            self.behaviour_packs@,
        );
        let p2 = p1 + counted_items(Width::Var, self.behaviour_packs@).len();
        lemma_holds_at_concat(s, p2, counted_items(Width::Var, self.texture_packs@), t4);
        lemma_counted_items_round_trip::<StackResourcePack>(Width::Var, s, p2, self.texture_packs@);
        let p3 = p2 + counted_items(Width::Var, self.texture_packs@).len();
        lemma_holds_at_concat(s, p3, var_text(self.base_game_version@), t5);
        lemma_var_text_round_trip(s, p3, self.base_game_version@);
        let p4 = p3 + var_text(self.base_game_version@).len();
        lemma_holds_at_concat(s, p4, counted_items(Width::Le32, self.experiments@), t6);
        lemma_counted_items_round_trip::<ExperimentData>(Width::Le32, s, p4, self.experiments@);
        let p5 = p4 + counted_items(Width::Le32, self.experiments@).len();
        lemma_bool_round_trip(s, p5, self.experiments_previously_toggled);
    }
}

/// Sets the time of day.
#[derive(Debug, Clone, Copy, PartialEq, Eq, Structural, Default)]
pub struct SetTime {
    pub time: i32,
}

impl SetTime {
    /// The fields in declaration order.
    pub open spec fn spec_bytes(self) -> Seq<u8> {
        var_i32_bytes(self.time)
    }

    pub open spec fn parse(s: Seq<u8>, pos: nat) -> Result<(SetTime, nat), Error> {
        match parse_var_i32(s, pos) {
            Ok((time, p1)) => Ok((SetTime { time }, p1)),
            Err(e) => Err(e),
        }
    }

    pub fn serialize(&self, out: &mut Vec<u8>)
        ensures
            final(out)@ == old(out)@ + self.spec_bytes(),
    {
        write_var_i32(out, self.time);
        assert(final(out)@ =~= old(out)@ + self.spec_bytes());
    }

    pub fn deserialize(buf: &[u8], pos: usize) -> (r: Result<(Self, usize), Error>)
        ensures
            agrees(r, Self::parse(buf@, pos as nat), buf@.len()),
    {
        let (time, p1) = match read_var_i32(buf, pos) {
            Ok(x) => x,
            Err(e) => return Err(e),
        };
        Ok((SetTime { time }, p1))
    }

    /// Decoding the bytes of a value gives it back and consumes exactly those bytes.
    pub proof fn lemma_round_trip(self, s: Seq<u8>, pos: nat)
        requires
            holds_at(s, pos, self.spec_bytes()),
        ensures
            Self::parse(s, pos) == Ok::<(SetTime, nat), Error>(
                (self, pos + self.spec_bytes().len()),
            ),
    {
        lemma_var_i32_round_trip(s, pos, self.time);
    }
}

/// Starts the game for a client: the world, its rules and the player's place in it. Angles and levels are IEEE-754 single-precision bit patterns; the property data is an already-encoded compound tag, written verbatim.
#[derive(Debug, Clone, PartialEq, Eq, Default)]
pub struct StartGame {
    pub entity_unique_id: i64,
    pub entity_runtime_id: u64,
    pub game_type: GameType,
    pub position: Position,
    pub pitch: u32,
    pub yaw: u32,
    pub world_seed: i64,
    pub spawn_biome_type: SpawnBiomeType,
    pub user_defined_biome_name: String,
    pub dimension: i32,
    pub generator: i32,
    pub world_game_type: GameType,
    pub difficulty: i32,
    pub world_spawn: UBlockPos,
    pub achievements_disabled: bool,
    pub editor_world_type: EditorWorldType,
    pub created_in_editor: bool,
    pub exported_from_editor: bool,
    pub day_cycle_lock_time: i32,
    pub education_edition_offer: i32,
    pub education_features_enabled: bool,
    pub education_product_id: String,
    pub rain_level: u32,
    pub lightning_level: u32,
    pub confirmed_platform_locked_content: bool,
    pub multiplayer_game: bool,
    pub lan_broadcast_enabled: bool,
    pub xbl_broadcast_mode: GamePublishSetting,
    pub platform_broadcast_mode: GamePublishSetting,
    pub commands_enabled: bool,
    pub texture_pack_required: bool,
    pub game_rules: Vec<GameRule>,
    pub experiments: Vec<ExperimentData>,
    pub experiments_previously_toggled: bool,
    pub bonus_chest_enabled: bool,
    pub start_with_map_enabled: bool,
    pub player_permission: PlayerPermission,
    pub server_chunk_tick_radius: i32,
    pub has_locked_behaviour_pack: bool,
    pub has_locked_texture_pack: bool,
    pub from_locked_world_template: bool,
    pub msa_gamertags_only: bool,
    pub from_world_template: bool,
    pub world_template_settings_locked: bool,
    pub only_spawn_v1_villagers: bool,
    pub persona_disabled: bool,
    pub custom_skins_disabled: bool,
    pub emote_chat_muted: bool,
    pub base_game_version: String,
    pub limited_world_width: i32,
    pub limited_world_depth: i32,
    pub new_nether: bool,
    pub education_shared_uri: EducationSharedResourceURI,
    pub force_experimental_gameplay: bool,
    pub chat_restriction_level: ChatRestriction,
    pub disable_player_interactions: bool,
    pub level_id: String,
    pub world_name: String,
    pub template_content_identity: String,
    pub trial: bool,
    pub player_move_settings: PlayerMoveSettings,
    pub time: i64,
    pub enchantment_seed: i32,
    pub blocks: Vec<BlockEntry>,
    pub items: Vec<ItemEntry>,
    pub multiplayer_correlation_id: String,
    pub server_authoritative_inventory: bool,
    pub game_version: String,
    pub property_data: Vec<u8>,
    pub server_blockstate_checksum: u64,
    pub world_template_id: UUID,
    pub clientside_generation: bool,
    pub use_block_network_id_hashes: bool,
    pub server_authoritative_sound: bool,
}

impl StartGame {
    /// Fields 1 to 20 in declaration order.
    pub open spec fn part1_bytes(self) -> Seq<u8> {
        var_i64_bytes(self.entity_unique_id)
            + var_bytes(self.entity_runtime_id as nat)
            + self.game_type.spec_bytes()
            + self.position.spec_bytes()
            + u32_le_bytes(self.pitch)
            + u32_le_bytes(self.yaw)
            + i64_le_bytes(self.world_seed)
            + self.spawn_biome_type.spec_bytes()
            + var_text(self.user_defined_biome_name@)
            + var_i32_bytes(self.dimension)
            + var_i32_bytes(self.generator)
            + self.world_game_type.spec_bytes()
            + var_i32_bytes(self.difficulty)
            + self.world_spawn.spec_bytes()
            + bool_bytes(self.achievements_disabled)
            + self.editor_world_type.spec_bytes()
            + bool_bytes(self.created_in_editor)
            + bool_bytes(self.exported_from_editor)
            + var_i32_bytes(self.day_cycle_lock_time)
            + var_i32_bytes(self.education_edition_offer)
    }

    /// Fields 21 to 40 in declaration order.
    pub open spec fn part2_bytes(self) -> Seq<u8> {
        bool_bytes(self.education_features_enabled)
            + var_text(self.education_product_id@)
            + u32_le_bytes(self.rain_level)
            + u32_le_bytes(self.lightning_level)
            + bool_bytes(self.confirmed_platform_locked_content)
            + bool_bytes(self.multiplayer_game)
            + bool_bytes(self.lan_broadcast_enabled)
            + self.xbl_broadcast_mode.spec_bytes()
            + self.platform_broadcast_mode.spec_bytes()
            + bool_bytes(self.commands_enabled)
            + bool_bytes(self.texture_pack_required)
            + counted_items(Width::Var, self.game_rules@)
            + counted_items(Width::Le32, self.experiments@)
            + bool_bytes(self.experiments_previously_toggled)
            + bool_bytes(self.bonus_chest_enabled)
            + bool_bytes(self.start_with_map_enabled)
            + self.player_permission.spec_bytes()
            + i32_le_bytes(self.server_chunk_tick_radius)
            + bool_bytes(self.has_locked_behaviour_pack)
            + bool_bytes(self.has_locked_texture_pack)
    }

    /// Fields 41 to 60 in declaration order.
    pub open spec fn part3_bytes(self) -> Seq<u8> {
        bool_bytes(self.from_locked_world_template)
            + bool_bytes(self.msa_gamertags_only)
            + bool_bytes(self.from_world_template)
            + bool_bytes(self.world_template_settings_locked)
            + bool_bytes(self.only_spawn_v1_villagers)
            + bool_bytes(self.persona_disabled)
            + bool_bytes(self.custom_skins_disabled)
            + bool_bytes(self.emote_chat_muted)
            + var_text(self.base_game_version@)
            + i32_le_bytes(self.limited_world_width)
            + i32_le_bytes(self.limited_world_depth)
            + bool_bytes(self.new_nether)
            + self.education_shared_uri.spec_bytes()
            + bool_bytes(self.force_experimental_gameplay)
            + self.chat_restriction_level.spec_bytes()
            + bool_bytes(self.disable_player_interactions)
            + var_text(self.level_id@)
            + var_text(self.world_name@)
            + var_text(self.template_content_identity@)
            + bool_bytes(self.trial)
    }

    /// Fields 61 to 74 in declaration order.
    pub open spec fn part4_bytes(self) -> Seq<u8> {
        self.player_move_settings.spec_bytes()
            + i64_le_bytes(self.time)
            + var_i32_bytes(self.enchantment_seed)
            + counted_items(Width::Var, self.blocks@)
            + counted_items(Width::Var, self.items@)
            + var_text(self.multiplayer_correlation_id@)
            + bool_bytes(self.server_authoritative_inventory)
            + var_text(self.game_version@)
            + self.property_data@
            + u64_le_bytes(self.server_blockstate_checksum)
            + self.world_template_id.spec_bytes()
            + bool_bytes(self.clientside_generation)
            + bool_bytes(self.use_block_network_id_hashes)
            + bool_bytes(self.server_authoritative_sound)
    }

    /// The fields in declaration order.
    pub open spec fn spec_bytes(self) -> Seq<u8> {
        self.part1_bytes()
            + self.part2_bytes()
            + self.part3_bytes()
            + self.part4_bytes()
    }

    fn serialize_part1(&self, out: &mut Vec<u8>)
        ensures
            final(out)@ == old(out)@ + self.part1_bytes(),
    {
        let ghost o = out@;
        write_var_i64(out, self.entity_unique_id);
        let ghost b1 = var_i64_bytes(self.entity_unique_id);
        write_var_u64(out, self.entity_runtime_id);
        let ghost b2 = b1 + var_bytes(self.entity_runtime_id as nat);
        proof {
            vstd::seq_lib::lemma_concat_associative(
                o,
                b1,
                var_bytes(self.entity_runtime_id as nat),
            );
        }
        self.game_type.serialize(out);
        let ghost b3 = b2 + self.game_type.spec_bytes();
        proof {
            vstd::seq_lib::lemma_concat_associative(o, b2, self.game_type.spec_bytes());
        }
        self.position.serialize(out);
        let ghost b4 = b3 + self.position.spec_bytes();
        proof {
            vstd::seq_lib::lemma_concat_associative(o, b3, self.position.spec_bytes());
        }
        write_u32_le(out, self.pitch);
        let ghost b5 = b4 + u32_le_bytes(self.pitch);
        proof {
            vstd::seq_lib::lemma_concat_associative(o, b4, u32_le_bytes(self.pitch));
        }
        write_u32_le(out, self.yaw);
        let ghost b6 = b5 + u32_le_bytes(self.yaw);
        proof {
            vstd::seq_lib::lemma_concat_associative(o, b5, u32_le_bytes(self.yaw));
        }
        write_i64_le(out, self.world_seed);
        let ghost b7 = b6 + i64_le_bytes(self.world_seed);
        proof {
            vstd::seq_lib::lemma_concat_associative(o, b6, i64_le_bytes(self.world_seed));
        }
        self.spawn_biome_type.serialize(out);
        let ghost b8 = b7 + self.spawn_biome_type.spec_bytes();
        proof {
            vstd::seq_lib::lemma_concat_associative(o, b7, self.spawn_biome_type.spec_bytes());
        }
        write_var_text(out, &self.user_defined_biome_name);
        let ghost b9 = b8 + var_text(self.user_defined_biome_name@);
        proof {
            vstd::seq_lib::lemma_concat_associative(o, b8, var_text(self.user_defined_biome_name@));
        }
        write_var_i32(out, self.dimension);
        let ghost b10 = b9 + var_i32_bytes(self.dimension);
        proof {
            vstd::seq_lib::lemma_concat_associative(o, b9, var_i32_bytes(self.dimension));
        }
        write_var_i32(out, self.generator);
        let ghost b11 = b10 + var_i32_bytes(self.generator);
        proof {
            vstd::seq_lib::lemma_concat_associative(o, b10, var_i32_bytes(self.generator));
        }
        self.world_game_type.serialize(out);
        let ghost b12 = b11 + self.world_game_type.spec_bytes();
        proof {
            vstd::seq_lib::lemma_concat_associative(o, b11, self.world_game_type.spec_bytes());
        }
        write_var_i32(out, self.difficulty);
        let ghost b13 = b12 + var_i32_bytes(self.difficulty);
        proof {
            vstd::seq_lib::lemma_concat_associative(o, b12, var_i32_bytes(self.difficulty));
        }
        self.world_spawn.serialize(out);
        let ghost b14 = b13 + self.world_spawn.spec_bytes();
        proof {
            vstd::seq_lib::lemma_concat_associative(o, b13, self.world_spawn.spec_bytes());
        }
        write_bool(out, self.achievements_disabled);
        let ghost b15 = b14 + bool_bytes(self.achievements_disabled);
        proof {
            vstd::seq_lib::lemma_concat_associative(o, b14, bool_bytes(self.achievements_disabled));
        }
        self.editor_world_type.serialize(out);
        let ghost b16 = b15 + self.editor_world_type.spec_bytes();
        proof {
            vstd::seq_lib::lemma_concat_associative(o, b15, self.editor_world_type.spec_bytes());
        }
        write_bool(out, self.created_in_editor);
        let ghost b17 = b16 + bool_bytes(self.created_in_editor);
        proof {
            vstd::seq_lib::lemma_concat_associative(o, b16, bool_bytes(self.created_in_editor));
        }
        write_bool(out, self.exported_from_editor);
        let ghost b18 = b17 + bool_bytes(self.exported_from_editor);
        proof {
            vstd::seq_lib::lemma_concat_associative(o, b17, bool_bytes(self.exported_from_editor));
        }
        write_var_i32(out, self.day_cycle_lock_time);
        let ghost b19 = b18 + var_i32_bytes(self.day_cycle_lock_time);
        proof {
            vstd::seq_lib::lemma_concat_associative(
                o,
                b18,
                var_i32_bytes(self.day_cycle_lock_time),
            );
        }
        write_var_i32(out, self.education_edition_offer);
        let ghost b20 = b19 + var_i32_bytes(self.education_edition_offer);
        proof {
            vstd::seq_lib::lemma_concat_associative(
                o,
                b19,
                var_i32_bytes(self.education_edition_offer),
            );
        }
    }

    fn serialize_part2(&self, out: &mut Vec<u8>)
        ensures
            final(out)@ == old(out)@ + self.part2_bytes(),
    {
        let ghost o = out@;
        write_bool(out, self.education_features_enabled);
        let ghost b1 = bool_bytes(self.education_features_enabled);
        write_var_text(out, &self.education_product_id);
        let ghost b2 = b1 + var_text(self.education_product_id@);
        proof {
            vstd::seq_lib::lemma_concat_associative(o, b1, var_text(self.education_product_id@));
        }
        write_u32_le(out, self.rain_level);
        let ghost b3 = b2 + u32_le_bytes(self.rain_level);
        proof {
            vstd::seq_lib::lemma_concat_associative(o, b2, u32_le_bytes(self.rain_level));
        }
        write_u32_le(out, self.lightning_level);
        let ghost b4 = b3 + u32_le_bytes(self.lightning_level);
        proof {
            vstd::seq_lib::lemma_concat_associative(o, b3, u32_le_bytes(self.lightning_level));
        }
        write_bool(out, self.confirmed_platform_locked_content);
        let ghost b5 = b4 + bool_bytes(self.confirmed_platform_locked_content);
        proof {
            vstd::seq_lib::lemma_concat_associative(
                o,
                b4,
                bool_bytes(self.confirmed_platform_locked_content),
            );
        }
        write_bool(out, self.multiplayer_game);
        let ghost b6 = b5 + bool_bytes(self.multiplayer_game);
        proof {
            vstd::seq_lib::lemma_concat_associative(o, b5, bool_bytes(self.multiplayer_game));
        }
        write_bool(out, self.lan_broadcast_enabled);
        let ghost b7 = b6 + bool_bytes(self.lan_broadcast_enabled);
        proof {
            vstd::seq_lib::lemma_concat_associative(o, b6, bool_bytes(self.lan_broadcast_enabled));
        }
        self.xbl_broadcast_mode.serialize(out);
        let ghost b8 = b7 + self.xbl_broadcast_mode.spec_bytes();
        proof {
            vstd::seq_lib::lemma_concat_associative(o, b7, self.xbl_broadcast_mode.spec_bytes());
        }
        self.platform_broadcast_mode.serialize(out);
        let ghost b9 = b8 + self.platform_broadcast_mode.spec_bytes();
        proof {
            vstd::seq_lib::lemma_concat_associative(
                o,
                b8,
                self.platform_broadcast_mode.spec_bytes(),
            );
        }
        write_bool(out, self.commands_enabled);
        let ghost b10 = b9 + bool_bytes(self.commands_enabled);
        proof {
            vstd::seq_lib::lemma_concat_associative(o, b9, bool_bytes(self.commands_enabled));
        }
        write_bool(out, self.texture_pack_required);
        let ghost b11 = b10 + bool_bytes(self.texture_pack_required);
        proof {
            vstd::seq_lib::lemma_concat_associative(o, b10, bool_bytes(self.texture_pack_required));
        }
        write_counted_items(out, Width::Var, &self.game_rules);
        let ghost b12 = b11 + counted_items(Width::Var, self.game_rules@);
        proof {
            vstd::seq_lib::lemma_concat_associative(
                o,
                b11,
                counted_items(Width::Var, self.game_rules@),
            );
        }
        write_counted_items(out, Width::Le32, &self.experiments);
        let ghost b13 = b12 + counted_items(Width::Le32, self.experiments@);
        proof {
            vstd::seq_lib::lemma_concat_associative(
                o,
                b12,
                counted_items(Width::Le32, self.experiments@),
            );
        }
        write_bool(out, self.experiments_previously_toggled);
        let ghost b14 = b13 + bool_bytes(self.experiments_previously_toggled);
        proof {
            vstd::seq_lib::lemma_concat_associative(
                o,
                b13,
                bool_bytes(self.experiments_previously_toggled),
            );
        }
        write_bool(out, self.bonus_chest_enabled);
        let ghost b15 = b14 + bool_bytes(self.bonus_chest_enabled);
        proof {
            vstd::seq_lib::lemma_concat_associative(o, b14, bool_bytes(self.bonus_chest_enabled));
        }
        write_bool(out, self.start_with_map_enabled);
        let ghost b16 = b15 + bool_bytes(self.start_with_map_enabled);
        proof {
            vstd::seq_lib::lemma_concat_associative(
                o,
                b15,
                bool_bytes(self.start_with_map_enabled),
            );
        }
        self.player_permission.serialize(out);
        let ghost b17 = b16 + self.player_permission.spec_bytes();
        proof {
            vstd::seq_lib::lemma_concat_associative(o, b16, self.player_permission.spec_bytes());
        }
        write_i32_le(out, self.server_chunk_tick_radius);
        let ghost b18 = b17 + i32_le_bytes(self.server_chunk_tick_radius);
        proof {
            vstd::seq_lib::lemma_concat_associative(
                o,
                b17,
                i32_le_bytes(self.server_chunk_tick_radius),
            );
        }
        write_bool(out, self.has_locked_behaviour_pack);
        let ghost b19 = b18 + bool_bytes(self.has_locked_behaviour_pack);
        proof {
            vstd::seq_lib::lemma_concat_associative(
                o,
                b18,
                bool_bytes(self.has_locked_behaviour_pack),
            );
        }
        write_bool(out, self.has_locked_texture_pack);
        let ghost b20 = b19 + bool_bytes(self.has_locked_texture_pack);
        proof {
            vstd::seq_lib::lemma_concat_associative(
                o,
                b19,
                bool_bytes(self.has_locked_texture_pack),
            );
        }
    }

    fn serialize_part3(&self, out: &mut Vec<u8>)
        ensures
            final(out)@ == old(out)@ + self.part3_bytes(),
    {
        let ghost o = out@;
        write_bool(out, self.from_locked_world_template);
        let ghost b1 = bool_bytes(self.from_locked_world_template);
        write_bool(out, self.msa_gamertags_only);
        let ghost b2 = b1 + bool_bytes(self.msa_gamertags_only);
        proof {
            vstd::seq_lib::lemma_concat_associative(o, b1, bool_bytes(self.msa_gamertags_only));
        }
        write_bool(out, self.from_world_template);
        let ghost b3 = b2 + bool_bytes(self.from_world_template);
        proof {
            vstd::seq_lib::lemma_concat_associative(o, b2, bool_bytes(self.from_world_template));
        }
        write_bool(out, self.world_template_settings_locked);
        let ghost b4 = b3 + bool_bytes(self.world_template_settings_locked);
        proof {
            vstd::seq_lib::lemma_concat_associative(
                o,
                b3,
                bool_bytes(self.world_template_settings_locked),
            );
        }
        write_bool(out, self.only_spawn_v1_villagers);
        let ghost b5 = b4 + bool_bytes(self.only_spawn_v1_villagers);
        proof {
            vstd::seq_lib::lemma_concat_associative(
                o,
                b4,
                bool_bytes(self.only_spawn_v1_villagers),
            );
        }
        write_bool(out, self.persona_disabled);
        let ghost b6 = b5 + bool_bytes(self.persona_disabled);
        proof {
            vstd::seq_lib::lemma_concat_associative(o, b5, bool_bytes(self.persona_disabled));
        }
        write_bool(out, self.custom_skins_disabled);
        let ghost b7 = b6 + bool_bytes(self.custom_skins_disabled);
        proof {
            vstd::seq_lib::lemma_concat_associative(o, b6, bool_bytes(self.custom_skins_disabled));
        }
        write_bool(out, self.emote_chat_muted);
        let ghost b8 = b7 + bool_bytes(self.emote_chat_muted);
        proof {
            vstd::seq_lib::lemma_concat_associative(o, b7, bool_bytes(self.emote_chat_muted));
        }
        write_var_text(out, &self.base_game_version);
        let ghost b9 = b8 + var_text(self.base_game_version@);
        proof {
            vstd::seq_lib::lemma_concat_associative(o, b8, var_text(self.base_game_version@));
        }
        write_i32_le(out, self.limited_world_width);
        let ghost b10 = b9 + i32_le_bytes(self.limited_world_width);
        proof {
            vstd::seq_lib::lemma_concat_associative(o, b9, i32_le_bytes(self.limited_world_width));
        }
        write_i32_le(out, self.limited_world_depth);
        let ghost b11 = b10 + i32_le_bytes(self.limited_world_depth);
        proof {
            vstd::seq_lib::lemma_concat_associative(o, b10, i32_le_bytes(self.limited_world_depth));
        }
        write_bool(out, self.new_nether);
        let ghost b12 = b11 + bool_bytes(self.new_nether);
        proof {
            vstd::seq_lib::lemma_concat_associative(o, b11, bool_bytes(self.new_nether));
        }
        self.education_shared_uri.serialize(out);
        let ghost b13 = b12 + self.education_shared_uri.spec_bytes();
        proof {
            vstd::seq_lib::lemma_concat_associative(o, b12, self.education_shared_uri.spec_bytes());
        }
        write_bool(out, self.force_experimental_gameplay);
        let ghost b14 = b13 + bool_bytes(self.force_experimental_gameplay);
        proof {
            vstd::seq_lib::lemma_concat_associative(
                o,
                b13,
                bool_bytes(self.force_experimental_gameplay),
            );
        }
        self.chat_restriction_level.serialize(out);
        let ghost b15 = b14 + self.chat_restriction_level.spec_bytes();
        proof {
            vstd::seq_lib::lemma_concat_associative(
                o,
                b14,
                self.chat_restriction_level.spec_bytes(),
            );
        }
        write_bool(out, self.disable_player_interactions);
        let ghost b16 = b15 + bool_bytes(self.disable_player_interactions);
        proof {
            vstd::seq_lib::lemma_concat_associative(
                o,
                b15,
                bool_bytes(self.disable_player_interactions),
            );
        }
        write_var_text(out, &self.level_id);
        let ghost b17 = b16 + var_text(self.level_id@);
        proof {
            vstd::seq_lib::lemma_concat_associative(o, b16, var_text(self.level_id@));
        }
        write_var_text(out, &self.world_name);
        let ghost b18 = b17 + var_text(self.world_name@);
        proof {
            vstd::seq_lib::lemma_concat_associative(o, b17, var_text(self.world_name@));
        }
        write_var_text(out, &self.template_content_identity);
        let ghost b19 = b18 + var_text(self.template_content_identity@);
        proof {
            vstd::seq_lib::lemma_concat_associative(
                o,
                b18,
                var_text(self.template_content_identity@),
            );
        }
        write_bool(out, self.trial);
        let ghost b20 = b19 + bool_bytes(self.trial);
        proof {
            vstd::seq_lib::lemma_concat_associative(o, b19, bool_bytes(self.trial));
        }
    }

    fn serialize_part4(&self, out: &mut Vec<u8>)
        ensures
            final(out)@ == old(out)@ + self.part4_bytes(),
    {
        let ghost o = out@;
        self.player_move_settings.serialize(out);
        let ghost b1 = self.player_move_settings.spec_bytes();
        write_i64_le(out, self.time);
        let ghost b2 = b1 + i64_le_bytes(self.time);
        proof {
            vstd::seq_lib::lemma_concat_associative(o, b1, i64_le_bytes(self.time));
        }
        write_var_i32(out, self.enchantment_seed);
        let ghost b3 = b2 + var_i32_bytes(self.enchantment_seed);
        proof {
            vstd::seq_lib::lemma_concat_associative(o, b2, var_i32_bytes(self.enchantment_seed));
        }
        write_counted_items(out, Width::Var, &self.blocks);
        let ghost b4 = b3 + counted_items(Width::Var, self.blocks@);
        proof {
            vstd::seq_lib::lemma_concat_associative(o, b3, counted_items(Width::Var, self.blocks@));
        }
        write_counted_items(out, Width::Var, &self.items);
        let ghost b5 = b4 + counted_items(Width::Var, self.items@);
        proof {
            vstd::seq_lib::lemma_concat_associative(o, b4, counted_items(Width::Var, self.items@));
        }
        write_var_text(out, &self.multiplayer_correlation_id);
        let ghost b6 = b5 + var_text(self.multiplayer_correlation_id@);
        proof {
            vstd::seq_lib::lemma_concat_associative(
                o,
                b5,
                var_text(self.multiplayer_correlation_id@),
            );
        }
        write_bool(out, self.server_authoritative_inventory);
        let ghost b7 = b6 + bool_bytes(self.server_authoritative_inventory);
        proof {
            vstd::seq_lib::lemma_concat_associative(
                o,
                b6,
                bool_bytes(self.server_authoritative_inventory),
            );
        }
        write_var_text(out, &self.game_version);
        let ghost b8 = b7 + var_text(self.game_version@);
        proof {
            vstd::seq_lib::lemma_concat_associative(o, b7, var_text(self.game_version@));
        }
        write_bytes(out, self.property_data.as_slice());
        let ghost b9 = b8 + self.property_data@;
        proof {
            vstd::seq_lib::lemma_concat_associative(o, b8, self.property_data@);
        }
        write_u64_le(out, self.server_blockstate_checksum);
        let ghost b10 = b9 + u64_le_bytes(self.server_blockstate_checksum);
        proof {
            vstd::seq_lib::lemma_concat_associative(
                o,
                b9,
                u64_le_bytes(self.server_blockstate_checksum),
            );
        }
        self.world_template_id.serialize(out);
        let ghost b11 = b10 + self.world_template_id.spec_bytes();
        proof {
            vstd::seq_lib::lemma_concat_associative(o, b10, self.world_template_id.spec_bytes());
        }
        write_bool(out, self.clientside_generation);
        let ghost b12 = b11 + bool_bytes(self.clientside_generation);
        proof {
            vstd::seq_lib::lemma_concat_associative(o, b11, bool_bytes(self.clientside_generation));
        }
        write_bool(out, self.use_block_network_id_hashes);
        let ghost b13 = b12 + bool_bytes(self.use_block_network_id_hashes);
        proof {
            vstd::seq_lib::lemma_concat_associative(
                o,
                b12,
                bool_bytes(self.use_block_network_id_hashes),
            );
        }
        write_bool(out, self.server_authoritative_sound);
        let ghost b14 = b13 + bool_bytes(self.server_authoritative_sound);
        proof {
            vstd::seq_lib::lemma_concat_associative(
                o,
                b13,
                bool_bytes(self.server_authoritative_sound),
            );
        }
    }

    pub fn serialize(&self, out: &mut Vec<u8>)
        ensures
            final(out)@ == old(out)@ + self.spec_bytes(),
    {
        let ghost o = out@;
        self.serialize_part1(out);
        let ghost b1 = self.part1_bytes();
        self.serialize_part2(out);
        let ghost b2 = b1 + self.part2_bytes();
        proof {
            vstd::seq_lib::lemma_concat_associative(o, b1, self.part2_bytes());
        }
        self.serialize_part3(out);
        let ghost b3 = b2 + self.part3_bytes();
        proof {
            vstd::seq_lib::lemma_concat_associative(o, b2, self.part3_bytes());
        }
        self.serialize_part4(out);
        let ghost b4 = b3 + self.part4_bytes();
        proof {
            vstd::seq_lib::lemma_concat_associative(o, b3, self.part4_bytes());
        }
    }

    /// Decoding needs the compound-tag codec, which this library does not hold: it always reports `Unsupported`.
    pub fn deserialize(buf: &[u8], pos: usize) -> (r: Result<(Self, usize), Error>)
        ensures
            r == Err::<(Self, usize), Error>(Error::Unsupported),
    {
        Err(Error::Unsupported)
    }
}

/// Adds another player to the client's world. Angles are IEEE-754 single-precision bit patterns.
#[derive(Debug, Clone, PartialEq, Eq, Default)]
pub struct AddPlayer {
    pub uuid: UUID,
    pub username: String,
    pub entity_runtime_id: u64,
    pub platform_chat_id: String,
    pub position: Position,
    pub velocity: Velocity,
    pub pitch: u32,
    pub yaw: u32,
    pub head_yaw: u32,
    pub held_item: ItemInstance,
    pub game_type: GameType,
    pub device_id: String,
    pub build_platform: i32,
}

impl AddPlayer {
    /// The fields in declaration order.
    pub open spec fn spec_bytes(self) -> Seq<u8> {
        self.uuid.spec_bytes()
            + var_text(self.username@)
            + var_bytes(self.entity_runtime_id as nat)
            + var_text(self.platform_chat_id@)
            + self.position.spec_bytes()
            + self.velocity.spec_bytes()
            + u32_le_bytes(self.pitch)
            + u32_le_bytes(self.yaw)
            + u32_le_bytes(self.head_yaw)
            + self.held_item.spec_bytes()
            + self.game_type.spec_bytes()
            + var_text(self.device_id@)
            + i32_le_bytes(self.build_platform)
    }

    pub fn serialize(&self, out: &mut Vec<u8>)
        ensures
            final(out)@ == old(out)@ + self.spec_bytes(),
    {
        let ghost o = out@;
        self.uuid.serialize(out);
        let ghost b1 = self.uuid.spec_bytes();
        write_var_text(out, &self.username);
        let ghost b2 = b1 + var_text(self.username@);
        proof {
            vstd::seq_lib::lemma_concat_associative(o, b1, var_text(self.username@));
        }
        write_var_u64(out, self.entity_runtime_id);
        let ghost b3 = b2 + var_bytes(self.entity_runtime_id as nat);
        proof {
            vstd::seq_lib::lemma_concat_associative(
                o,
                b2,
                var_bytes(self.entity_runtime_id as nat),
            );
        }
        write_var_text(out, &self.platform_chat_id);
        let ghost b4 = b3 + var_text(self.platform_chat_id@);
        proof {
            vstd::seq_lib::lemma_concat_associative(o, b3, var_text(self.platform_chat_id@));
        }
        self.position.serialize(out);
        let ghost b5 = b4 + self.position.spec_bytes();
        proof {
            vstd::seq_lib::lemma_concat_associative(o, b4, self.position.spec_bytes());
        }
        self.velocity.serialize(out);
        let ghost b6 = b5 + self.velocity.spec_bytes();
        proof {
            vstd::seq_lib::lemma_concat_associative(o, b5, self.velocity.spec_bytes());
        }
        write_u32_le(out, self.pitch);
        let ghost b7 = b6 + u32_le_bytes(self.pitch);
        proof {
            vstd::seq_lib::lemma_concat_associative(o, b6, u32_le_bytes(self.pitch));
        }
        write_u32_le(out, self.yaw);
        let ghost b8 = b7 + u32_le_bytes(self.yaw);
        proof {
            vstd::seq_lib::lemma_concat_associative(o, b7, u32_le_bytes(self.yaw));
        }
        write_u32_le(out, self.head_yaw);
        let ghost b9 = b8 + u32_le_bytes(self.head_yaw);
        proof {
            vstd::seq_lib::lemma_concat_associative(o, b8, u32_le_bytes(self.head_yaw));
        }
        self.held_item.serialize(out);
        let ghost b10 = b9 + self.held_item.spec_bytes();
        proof {
            vstd::seq_lib::lemma_concat_associative(o, b9, self.held_item.spec_bytes());
        }
        self.game_type.serialize(out);
        let ghost b11 = b10 + self.game_type.spec_bytes();
        proof {
            vstd::seq_lib::lemma_concat_associative(o, b10, self.game_type.spec_bytes());
        }
        write_var_text(out, &self.device_id);
        let ghost b12 = b11 + var_text(self.device_id@);
        proof {
            vstd::seq_lib::lemma_concat_associative(o, b11, var_text(self.device_id@));
        }
        write_i32_le(out, self.build_platform);
        let ghost b13 = b12 + i32_le_bytes(self.build_platform);
        proof {
            vstd::seq_lib::lemma_concat_associative(o, b12, i32_le_bytes(self.build_platform));
        }
    }

    /// The held item is an item stack, whose decoding this library does not support: it always reports `Unsupported`.
    pub fn deserialize(buf: &[u8], pos: usize) -> (r: Result<(Self, usize), Error>)
        ensures
            r == Err::<(Self, usize), Error>(Error::Unsupported),
    {
        Err(Error::Unsupported)
    }
}

/// An entity picks up an item entity.
#[derive(Debug, Clone, Copy, PartialEq, Eq, Structural, Default)]
pub struct TakeItemActor {
    pub item_runtime_id: u64,
    pub taker_runtime_id: u64,
}

impl TakeItemActor {
    /// The fields in declaration order.
    pub open spec fn spec_bytes(self) -> Seq<u8> {
        var_bytes(self.item_runtime_id as nat)
            + var_bytes(self.taker_runtime_id as nat)
    }

    pub open spec fn parse(s: Seq<u8>, pos: nat) -> Result<(TakeItemActor, nat), Error> {
        match parse_var_u64(s, pos) {
            Ok((item_runtime_id, p1)) => match parse_var_u64(s, p1) {
                Ok((taker_runtime_id, p2)) => Ok(
                    (
                        TakeItemActor {
                            item_runtime_id,
                            taker_runtime_id,
                        },
                        p2,
                    ),
                ),
                Err(e) => Err(e),
            },
            Err(e) => Err(e),
        }
    }

    pub fn serialize(&self, out: &mut Vec<u8>)
        ensures
            final(out)@ == old(out)@ + self.spec_bytes(),
    {
        write_var_u64(out, self.item_runtime_id);
        write_var_u64(out, self.taker_runtime_id);
        assert(final(out)@ =~= old(out)@ + self.spec_bytes());
    }

    pub fn deserialize(buf: &[u8], pos: usize) -> (r: Result<(Self, usize), Error>)
        ensures
            agrees(r, Self::parse(buf@, pos as nat), buf@.len()),
    {
        let (item_runtime_id, p1) = match read_var_u64(buf, pos) {
            Ok(x) => x,
            Err(e) => return Err(e),
        };
        let (taker_runtime_id, p2) = match read_var_u64(buf, p1) {
            Ok(x) => x,
            Err(e) => return Err(e),
        };
        Ok((TakeItemActor { item_runtime_id, taker_runtime_id }, p2))
    }

    /// Decoding the bytes of a value gives it back and consumes exactly those bytes.
    pub proof fn lemma_round_trip(self, s: Seq<u8>, pos: nat)
        requires
            holds_at(s, pos, self.spec_bytes()),
        ensures
            Self::parse(s, pos) == Ok::<(TakeItemActor, nat), Error>(
                (self, pos + self.spec_bytes().len()),
            ),
    {
        let t2 = var_bytes(self.taker_runtime_id as nat);
        lemma_holds_at_concat(s, pos, var_bytes(self.item_runtime_id as nat), t2);
        lemma_var_u64_round_trip(s, pos, self.item_runtime_id);
        let p1 = pos + var_bytes(self.item_runtime_id as nat).len();
        lemma_var_u64_round_trip(s, p1, self.taker_runtime_id);
    }
}

/// Moves an entity to an absolute position and rotation.
#[derive(Debug, Clone, Copy, PartialEq, Eq, Structural, Default)]
pub struct MoveActorAbsolute {
    pub entity_runtime_id: u64,
    pub flags: u8,
    pub position: Position,
    pub rotation: Rotation,
}

impl MoveActorAbsolute {
    /// The fields in declaration order.
    pub open spec fn spec_bytes(self) -> Seq<u8> {
        var_bytes(self.entity_runtime_id as nat)
            + (seq![self.flags]
            + (self.position.spec_bytes()
            + self.rotation.spec_bytes()))
    }

    pub open spec fn parse(s: Seq<u8>, pos: nat) -> Result<(MoveActorAbsolute, nat), Error> {
        match parse_var_u64(s, pos) {
            Ok((entity_runtime_id, p1)) => match parse_u8(s, p1) {
                Ok((flags, p2)) => match Position::parse(s, p2) {
                    Ok((position, p3)) => match Rotation::parse(s, p3) {
                        Ok((rotation, p4)) => Ok(
                            (
                                MoveActorAbsolute {
                                    entity_runtime_id,
                                    flags,
                                    position,
                                    rotation,
                                },
                                p4,
                            ),
                        ),
                        Err(e) => Err(e),
                    },
                    Err(e) => Err(e),
                },
                Err(e) => Err(e),
            },
            Err(e) => Err(e),
        }
    }

    pub fn serialize(&self, out: &mut Vec<u8>)
        ensures
            final(out)@ == old(out)@ + self.spec_bytes(),
    {
        write_var_u64(out, self.entity_runtime_id);
        write_u8(out, self.flags);
        self.position.serialize(out);
        self.rotation.serialize(out);
        assert(final(out)@ =~= old(out)@ + self.spec_bytes());
    }

    pub fn deserialize(buf: &[u8], pos: usize) -> (r: Result<(Self, usize), Error>)
        ensures
            agrees(r, Self::parse(buf@, pos as nat), buf@.len()),
    {
        let (entity_runtime_id, p1) = match read_var_u64(buf, pos) {
            Ok(x) => x,
            Err(e) => return Err(e),
        };
        let (flags, p2) = match read_u8(buf, p1) {
            Ok(x) => x,
            Err(e) => return Err(e),
        };
        let (position, p3) = match Position::deserialize(buf, p2) {
            Ok(x) => x,
            Err(e) => return Err(e),
        };
        let (rotation, p4) = match Rotation::deserialize(buf, p3) {
            Ok(x) => x,
            Err(e) => return Err(e),
        };
        Ok((MoveActorAbsolute { entity_runtime_id, flags, position, rotation }, p4))
    }

    /// Decoding the bytes of a value gives it back and consumes exactly those bytes.
    pub proof fn lemma_round_trip(self, s: Seq<u8>, pos: nat)
        requires
            holds_at(s, pos, self.spec_bytes()),
        ensures
            Self::parse(s, pos) == Ok::<(MoveActorAbsolute, nat), Error>(
                (self, pos + self.spec_bytes().len()),
            ),
    {
        let t4 = self.rotation.spec_bytes();
        let t3 = self.position.spec_bytes() + t4;
        let t2 = seq![self.flags] + t3;
        lemma_holds_at_concat(s, pos, var_bytes(self.entity_runtime_id as nat), t2);
        lemma_var_u64_round_trip(s, pos, self.entity_runtime_id);
        let p1 = pos + var_bytes(self.entity_runtime_id as nat).len();
        lemma_holds_at_concat(s, p1, seq![self.flags], t3);
        lemma_u8_round_trip(s, p1, self.flags);
        let p2 = p1 + seq![self.flags].len();
        lemma_holds_at_concat(s, p2, self.position.spec_bytes(), t4);
        self.position.lemma_round_trip(s, p2);
        let p3 = p2 + self.position.spec_bytes().len();
        self.rotation.lemma_round_trip(s, p3);
    }
}

/// Moves a player; angles are IEEE-754 single-precision bit patterns.
#[derive(Debug, Clone, Copy, PartialEq, Eq, Structural, Default)]
pub struct MovePlayer {
    pub entity_runtime_id: u64,
    pub position: Position,
    pub pitch: u32,
    pub yaw: u32,
    pub head_yaw: u32,
    pub mode: MovementMode,
    pub on_ground: bool,
    pub ridden_runtime_id: u64,
    pub cause: TeleportCause,
    pub source_entity_type: i32,
    pub tick: u64,
}

impl MovePlayer {
    /// The fields in declaration order.
    pub open spec fn spec_bytes(self) -> Seq<u8> {
        var_bytes(self.entity_runtime_id as nat)
            + (self.position.spec_bytes()
            + (u32_le_bytes(self.pitch)
            + (u32_le_bytes(self.yaw)
            + (u32_le_bytes(self.head_yaw)
            + (self.mode.spec_bytes()
            + (bool_bytes(self.on_ground)
            + (var_bytes(self.ridden_runtime_id as nat)
            + (self.cause.spec_bytes()
            + (i32_le_bytes(self.source_entity_type)
            + var_bytes(self.tick as nat))))))))))
    }

    pub open spec fn parse(s: Seq<u8>, pos: nat) -> Result<(MovePlayer, nat), Error> {
        match parse_var_u64(s, pos) {
            Ok((entity_runtime_id, p1)) => match Position::parse(s, p1) {
                Ok((position, p2)) => match parse_u32_le(s, p2) {
                    Ok((pitch, p3)) => match parse_u32_le(s, p3) {
                        Ok((yaw, p4)) => match parse_u32_le(s, p4) {
                            Ok((head_yaw, p5)) => match MovementMode::parse(s, p5) {
                                Ok((mode, p6)) => match parse_bool(s, p6) {
                                    Ok((on_ground, p7)) => match parse_var_u64(s, p7) {
                                        Ok((ridden_runtime_id, p8)) => match TeleportCause::parse(s, p8) {
                                            Ok((cause, p9)) => match parse_i32_le(s, p9) {
                                                Ok((source_entity_type, p10)) => match parse_var_u64(s, p10) {
                                                    Ok((tick, p11)) => Ok(
                                                        (
                                                            MovePlayer {
                                                                entity_runtime_id,
                                                                position,
                                                                pitch,
                                                                yaw,
                                                                head_yaw,
                                                                mode,
                                                                on_ground,
                                                                ridden_runtime_id,
                                                                cause,
                                                                source_entity_type,
                                                                tick,
                                                            },
                                                            p11,
                                                        ),
                                                    ),
                                                    Err(e) => Err(e),
                                                },
                                                Err(e) => Err(e),
                                            },
                                            Err(e) => Err(e),
                                        },
                                        Err(e) => Err(e),
                                    },
                                    Err(e) => Err(e),
                                },
                                Err(e) => Err(e),
                            },
                            Err(e) => Err(e),
                        },
                        Err(e) => Err(e),
                    },
                    Err(e) => Err(e),
                },
                Err(e) => Err(e),
            },
            Err(e) => Err(e),
        }
    }

    pub fn serialize(&self, out: &mut Vec<u8>)
        ensures
            final(out)@ == old(out)@ + self.spec_bytes(),
    {
        write_var_u64(out, self.entity_runtime_id);
        self.position.serialize(out);
        write_u32_le(out, self.pitch);
        write_u32_le(out, self.yaw);
        write_u32_le(out, self.head_yaw);
        self.mode.serialize(out);
        write_bool(out, self.on_ground);
        write_var_u64(out, self.ridden_runtime_id);
        self.cause.serialize(out);
        write_i32_le(out, self.source_entity_type);
        write_var_u64(out, self.tick);
        assert(final(out)@ =~= old(out)@ + self.spec_bytes());
    }

    pub fn deserialize(buf: &[u8], pos: usize) -> (r: Result<(Self, usize), Error>)
        ensures
            agrees(r, Self::parse(buf@, pos as nat), buf@.len()),
    {
        let (entity_runtime_id, p1) = match read_var_u64(buf, pos) {
            Ok(x) => x,
            Err(e) => return Err(e),
        };
        let (position, p2) = match Position::deserialize(buf, p1) {
            Ok(x) => x,
            Err(e) => return Err(e),
        };
        let (pitch, p3) = match read_u32_le(buf, p2) {
            Ok(x) => x,
            Err(e) => return Err(e),
        };
        let (yaw, p4) = match read_u32_le(buf, p3) {
            Ok(x) => x,
            Err(e) => return Err(e),
        };
        let (head_yaw, p5) = match read_u32_le(buf, p4) {
            Ok(x) => x,
            Err(e) => return Err(e),
        };
        let (mode, p6) = match MovementMode::deserialize(buf, p5) {
            Ok(x) => x,
            Err(e) => return Err(e),
        };
        let (on_ground, p7) = match read_bool(buf, p6) {
            Ok(x) => x,
            Err(e) => return Err(e),
        };
        let (ridden_runtime_id, p8) = match read_var_u64(buf, p7) {
            Ok(x) => x,
            Err(e) => return Err(e),
        };
        let (cause, p9) = match TeleportCause::deserialize(buf, p8) {
            Ok(x) => x,
            Err(e) => return Err(e),
        };
        let (source_entity_type, p10) = match read_i32_le(buf, p9) {
            Ok(x) => x,
            Err(e) => return Err(e),
        };
        let (tick, p11) = match read_var_u64(buf, p10) {
            Ok(x) => x,
            Err(e) => return Err(e),
        };
        Ok(
            (
                MovePlayer {
                    entity_runtime_id,
                    position,
                    pitch,
                    yaw,
                    head_yaw,
                    mode,
                    on_ground,
                    ridden_runtime_id,
                    cause,
                    source_entity_type,
                    tick,
                },
                p11,
            ),
        )
    }

    /// Decoding the bytes of a value gives it back and consumes exactly those bytes.
    pub proof fn lemma_round_trip(self, s: Seq<u8>, pos: nat)
        requires
            holds_at(s, pos, self.spec_bytes()),
        ensures
            Self::parse(s, pos) == Ok::<(MovePlayer, nat), Error>(
                (self, pos + self.spec_bytes().len()),
            ),
    {
        let t11 = var_bytes(self.tick as nat);
        let t10 = i32_le_bytes(self.source_entity_type) + t11;
        let t9 = self.cause.spec_bytes() + t10;
        let t8 = var_bytes(self.ridden_runtime_id as nat) + t9;
        let t7 = bool_bytes(self.on_ground) + t8;
        let t6 = self.mode.spec_bytes() + t7;
        let t5 = u32_le_bytes(self.head_yaw) + t6;
        let t4 = u32_le_bytes(self.yaw) + t5;
        let t3 = u32_le_bytes(self.pitch) + t4;
        let t2 = self.position.spec_bytes() + t3;
        lemma_holds_at_concat(s, pos, var_bytes(self.entity_runtime_id as nat), t2);
        lemma_var_u64_round_trip(s, pos, self.entity_runtime_id);
        let p1 = pos + var_bytes(self.entity_runtime_id as nat).len();
        lemma_holds_at_concat(s, p1, self.position.spec_bytes(), t3);
        self.position.lemma_round_trip(s, p1);
        let p2 = p1 + self.position.spec_bytes().len();
        lemma_holds_at_concat(s, p2, u32_le_bytes(self.pitch), t4);
        lemma_u32_le_round_trip(s, p2, self.pitch);
        let p3 = p2 + u32_le_bytes(self.pitch).len();
        lemma_holds_at_concat(s, p3, u32_le_bytes(self.yaw), t5);
        lemma_u32_le_round_trip(s, p3, self.yaw);
        let p4 = p3 + u32_le_bytes(self.yaw).len();
        lemma_holds_at_concat(s, p4, u32_le_bytes(self.head_yaw), t6);
        lemma_u32_le_round_trip(s, p4, self.head_yaw);
        let p5 = p4 + u32_le_bytes(self.head_yaw).len();
        lemma_holds_at_concat(s, p5, self.mode.spec_bytes(), t7);
        self.mode.lemma_round_trip(s, p5);
        let p6 = p5 + self.mode.spec_bytes().len();
        lemma_holds_at_concat(s, p6, bool_bytes(self.on_ground), t8);
        lemma_bool_round_trip(s, p6, self.on_ground);
        let p7 = p6 + bool_bytes(self.on_ground).len();
        lemma_holds_at_concat(s, p7, var_bytes(self.ridden_runtime_id as nat), t9);
        lemma_var_u64_round_trip(s, p7, self.ridden_runtime_id);
        let p8 = p7 + var_bytes(self.ridden_runtime_id as nat).len();
        lemma_holds_at_concat(s, p8, self.cause.spec_bytes(), t10);
        self.cause.lemma_round_trip(s, p8);
        let p9 = p8 + self.cause.spec_bytes().len();
        lemma_holds_at_concat(s, p9, i32_le_bytes(self.source_entity_type), t11);
        lemma_i32_le_round_trip(s, p9, self.source_entity_type);
        let p10 = p9 + i32_le_bytes(self.source_entity_type).len();
        lemma_var_u64_round_trip(s, p10, self.tick);
    }
}

/// A passenger jumps with the given strength.
#[derive(Debug, Clone, Copy, PartialEq, Eq, Structural, Default)]
pub struct PassengerJump {
    pub strength: i32,
}

impl PassengerJump {
    /// The fields in declaration order.
    pub open spec fn spec_bytes(self) -> Seq<u8> {
        var_i32_bytes(self.strength)
    }

    pub open spec fn parse(s: Seq<u8>, pos: nat) -> Result<(PassengerJump, nat), Error> {
        match parse_var_i32(s, pos) {
            Ok((strength, p1)) => Ok((PassengerJump { strength }, p1)),
            Err(e) => Err(e),
        }
    }

    pub fn serialize(&self, out: &mut Vec<u8>)
        ensures
            final(out)@ == old(out)@ + self.spec_bytes(),
    {
        write_var_i32(out, self.strength);
        assert(final(out)@ =~= old(out)@ + self.spec_bytes());
    }

    pub fn deserialize(buf: &[u8], pos: usize) -> (r: Result<(Self, usize), Error>)
        ensures
            agrees(r, Self::parse(buf@, pos as nat), buf@.len()),
    {
        let (strength, p1) = match read_var_i32(buf, pos) {
            Ok(x) => x,
            Err(e) => return Err(e),
        };
        Ok((PassengerJump { strength }, p1))
    }

    /// Decoding the bytes of a value gives it back and consumes exactly those bytes.
    pub proof fn lemma_round_trip(self, s: Seq<u8>, pos: nat)
        requires
            holds_at(s, pos, self.spec_bytes()),
        ensures
            Self::parse(s, pos) == Ok::<(PassengerJump, nat), Error>(
                (self, pos + self.spec_bytes().len()),
            ),
    {
        lemma_var_i32_round_trip(s, pos, self.strength);
    }
}

/// Replaces a block in a world.
#[derive(Debug, Clone, Copy, PartialEq, Eq, Structural, Default)]
pub struct UpdateBlock {
    pub position: UBlockPos,
    pub new_runtime_id: u32,
    pub flags: u32,
    pub layer: u32,
}

impl UpdateBlock {
    /// The fields in declaration order.
    pub open spec fn spec_bytes(self) -> Seq<u8> {
        self.position.spec_bytes()
            + (var_bytes(self.new_runtime_id as nat)
            + (var_bytes(self.flags as nat)
            + var_bytes(self.layer as nat)))
    }

    pub open spec fn parse(s: Seq<u8>, pos: nat) -> Result<(UpdateBlock, nat), Error> {
        match UBlockPos::parse(s, pos) {
            Ok((position, p1)) => match parse_var_u32(s, p1) {
                Ok((new_runtime_id, p2)) => match parse_var_u32(s, p2) {
                    Ok((flags, p3)) => match parse_var_u32(s, p3) {
                        Ok((layer, p4)) => Ok(
                            (
                                UpdateBlock {
                                    position,
                                    new_runtime_id,
                                    flags,
                                    layer,
                                },
                                p4,
                            ),
                        ),
                        Err(e) => Err(e),
                    },
                    Err(e) => Err(e),
                },
                Err(e) => Err(e),
            },
            Err(e) => Err(e),
        }
    }

    pub fn serialize(&self, out: &mut Vec<u8>)
        ensures
            final(out)@ == old(out)@ + self.spec_bytes(),
    {
        self.position.serialize(out);
        write_var_u32(out, self.new_runtime_id);
        write_var_u32(out, self.flags);
        write_var_u32(out, self.layer);
        assert(final(out)@ =~= old(out)@ + self.spec_bytes());
    }

    pub fn deserialize(buf: &[u8], pos: usize) -> (r: Result<(Self, usize), Error>)
        ensures
            agrees(r, Self::parse(buf@, pos as nat), buf@.len()),
    {
        let (position, p1) = match UBlockPos::deserialize(buf, pos) {
            Ok(x) => x,
            Err(e) => return Err(e),
        };
        let (new_runtime_id, p2) = match read_var_u32(buf, p1) {
            Ok(x) => x,
            Err(e) => return Err(e),
        };
        let (flags, p3) = match read_var_u32(buf, p2) {
            Ok(x) => x,
            Err(e) => return Err(e),
        };
        let (layer, p4) = match read_var_u32(buf, p3) {
            Ok(x) => x,
            Err(e) => return Err(e),
        };
        Ok((UpdateBlock { position, new_runtime_id, flags, layer }, p4))
    }

    /// Decoding the bytes of a value gives it back and consumes exactly those bytes.
    pub proof fn lemma_round_trip(self, s: Seq<u8>, pos: nat)
        requires
            holds_at(s, pos, self.spec_bytes()),
        ensures
            Self::parse(s, pos) == Ok::<(UpdateBlock, nat), Error>(
                (self, pos + self.spec_bytes().len()),
            ),
    {
        let t4 = var_bytes(self.layer as nat);
        let t3 = var_bytes(self.flags as nat) + t4;
        let t2 = var_bytes(self.new_runtime_id as nat) + t3;
        lemma_holds_at_concat(s, pos, self.position.spec_bytes(), t2);
        self.position.lemma_round_trip(s, pos);
        let p1 = pos + self.position.spec_bytes().len();
        lemma_holds_at_concat(s, p1, var_bytes(self.new_runtime_id as nat), t3);
        lemma_var_u32_round_trip(s, p1, self.new_runtime_id);
        let p2 = p1 + var_bytes(self.new_runtime_id as nat).len();
        lemma_holds_at_concat(s, p2, var_bytes(self.flags as nat), t4);
        lemma_var_u32_round_trip(s, p2, self.flags);
        let p3 = p2 + var_bytes(self.flags as nat).len();
        lemma_var_u32_round_trip(s, p3, self.layer);
    }
}

/// Adds a painting entity.
#[derive(Debug, Clone, PartialEq, Eq, Default)]
pub struct AddPainting {
    pub entity_unique_id: i64,
    pub entity_runtime_id: u64,
    pub position: Position,
    pub direction: i32,
    pub title: String,
}

/// The value of a `AddPainting`, with its text and byte fields as sequences.
pub ghost struct AddPaintingView {
    pub entity_unique_id: i64,
    pub entity_runtime_id: u64,
    pub position: Position,
    pub direction: i32,
    pub title: Seq<char>,
}

impl View for AddPainting {
    type V = AddPaintingView;

    open spec fn view(&self) -> AddPaintingView {
        AddPaintingView {
            entity_unique_id: self.entity_unique_id,
            entity_runtime_id: self.entity_runtime_id,
            position: self.position,
            direction: self.direction,
            title: self.title@,
        }
    }
}

impl AddPainting {
    /// The fields in declaration order.
    pub open spec fn spec_bytes(self) -> Seq<u8> {
        var_i64_bytes(self.entity_unique_id)
            + (var_bytes(self.entity_runtime_id as nat)
            + (self.position.spec_bytes()
            + (var_i32_bytes(self.direction)
            + var_text(self.title@))))
    }

    /// Every text and byte field fits its length prefix.
    pub open spec fn wf(self) -> bool {
        text_fits(self.title@)
    }

    pub open spec fn parse(s: Seq<u8>, pos: nat) -> Result<(AddPaintingView, nat), Error> {
        match parse_var_i64(s, pos) {
            Ok((entity_unique_id, p1)) => match parse_var_u64(s, p1) {
                Ok((entity_runtime_id, p2)) => match Position::parse(s, p2) {
                    Ok((position, p3)) => match parse_var_i32(s, p3) {
                        Ok((direction, p4)) => match parse_var_text(s, p4) {
                            Ok((title, p5)) => Ok(
                                (
                                    AddPaintingView {
                                        entity_unique_id,
                                        entity_runtime_id,
                                        position,
                                        direction,
                                        title,
                                    },
                                    p5,
                                ),
                            ),
                            Err(e) => Err(e),
                        },
                        Err(e) => Err(e),
                    },
                    Err(e) => Err(e),
                },
                Err(e) => Err(e),
            },
            Err(e) => Err(e),
        }
    }

    pub fn serialize(&self, out: &mut Vec<u8>)
        ensures
            final(out)@ == old(out)@ + self.spec_bytes(),
    {
        write_var_i64(out, self.entity_unique_id);
        write_var_u64(out, self.entity_runtime_id);
        self.position.serialize(out);
        write_var_i32(out, self.direction);
        write_var_text(out, &self.title);
        assert(final(out)@ =~= old(out)@ + self.spec_bytes());
    }

    pub fn deserialize(buf: &[u8], pos: usize) -> (r: Result<(Self, usize), Error>)
        ensures
            agrees_view(r, Self::parse(buf@, pos as nat), buf@.len()),
    {
        let (entity_unique_id, p1) = match read_var_i64(buf, pos) {
            Ok(x) => x,
            Err(e) => return Err(e),
        };
        let (entity_runtime_id, p2) = match read_var_u64(buf, p1) {
            Ok(x) => x,
            Err(e) => return Err(e),
        };
        let (position, p3) = match Position::deserialize(buf, p2) {
            Ok(x) => x,
            Err(e) => return Err(e),
        };
        let (direction, p4) = match read_var_i32(buf, p3) {
            Ok(x) => x,
            Err(e) => return Err(e),
        };
        let (title, p5) = match read_var_text(buf, p4) {
            Ok(x) => x,
            Err(e) => return Err(e),
        };
        Ok(
            (
                AddPainting {
                    entity_unique_id,
                    entity_runtime_id,
                    position,
                    direction,
                    title,
                },
                p5,
            ),
        )
    }

    /// Decoding the bytes of a value gives it back and consumes exactly those bytes.
    pub proof fn lemma_round_trip(self, s: Seq<u8>, pos: nat)
        requires
            self.wf(),
            holds_at(s, pos, self.spec_bytes()),
        ensures
            Self::parse(s, pos) == Ok::<(AddPaintingView, nat), Error>(
                (self@, pos + self.spec_bytes().len()),
            ),
    {
        let t5 = var_text(self.title@);
        let t4 = var_i32_bytes(self.direction) + t5;
        let t3 = self.position.spec_bytes() + t4;
        let t2 = var_bytes(self.entity_runtime_id as nat) + t3;
        lemma_holds_at_concat(s, pos, var_i64_bytes(self.entity_unique_id), t2);
        lemma_var_i64_round_trip(s, pos, self.entity_unique_id);
        let p1 = pos + var_i64_bytes(self.entity_unique_id).len();
        lemma_holds_at_concat(s, p1, var_bytes(self.entity_runtime_id as nat), t3);
        lemma_var_u64_round_trip(s, p1, self.entity_runtime_id);
        let p2 = p1 + var_bytes(self.entity_runtime_id as nat).len();
        lemma_holds_at_concat(s, p2, self.position.spec_bytes(), t4);
        self.position.lemma_round_trip(s, p2);
        let p3 = p2 + self.position.spec_bytes().len();
        lemma_holds_at_concat(s, p3, var_i32_bytes(self.direction), t5);
        lemma_var_i32_round_trip(s, p3, self.direction);
        let p4 = p3 + var_i32_bytes(self.direction).len();
        lemma_var_text_round_trip(s, p4, self.title@);
    }
}

/// Synchronises the tick counters of client and server.
#[derive(Debug, Clone, Copy, PartialEq, Eq, Structural, Default)]
pub struct TickSync {
    pub client_request_timestamp: i64,
    pub server_reception_timestamp: i64,
}

impl TickSync {
    /// The fields in declaration order.
    pub open spec fn spec_bytes(self) -> Seq<u8> {
        i64_le_bytes(self.client_request_timestamp)
            + i64_le_bytes(self.server_reception_timestamp)
    }

    pub open spec fn parse(s: Seq<u8>, pos: nat) -> Result<(TickSync, nat), Error> {
        match parse_i64_le(s, pos) {
            Ok((client_request_timestamp, p1)) => match parse_i64_le(s, p1) {
                Ok((server_reception_timestamp, p2)) => Ok(
                    (
                        TickSync {
                            client_request_timestamp,
                            server_reception_timestamp,
                        },
                        p2,
                    ),
                ),
                Err(e) => Err(e),
            },
            Err(e) => Err(e),
        }
    }

    pub fn serialize(&self, out: &mut Vec<u8>)
        ensures
            final(out)@ == old(out)@ + self.spec_bytes(),
    {
        write_i64_le(out, self.client_request_timestamp);
        write_i64_le(out, self.server_reception_timestamp);
        assert(final(out)@ =~= old(out)@ + self.spec_bytes());
    }

    pub fn deserialize(buf: &[u8], pos: usize) -> (r: Result<(Self, usize), Error>)
        ensures
            agrees(r, Self::parse(buf@, pos as nat), buf@.len()),
    {
        let (client_request_timestamp, p1) = match read_i64_le(buf, pos) {
            Ok(x) => x,
            Err(e) => return Err(e),
        };
        let (server_reception_timestamp, p2) = match read_i64_le(buf, p1) {
            Ok(x) => x,
            Err(e) => return Err(e),
        };
        Ok((TickSync { client_request_timestamp, server_reception_timestamp }, p2))
    }

    /// Decoding the bytes of a value gives it back and consumes exactly those bytes.
    pub proof fn lemma_round_trip(self, s: Seq<u8>, pos: nat)
        requires
            holds_at(s, pos, self.spec_bytes()),
        ensures
            Self::parse(s, pos) == Ok::<(TickSync, nat), Error>(
                (self, pos + self.spec_bytes().len()),
            ),
    {
        let t2 = i64_le_bytes(self.server_reception_timestamp);
        lemma_holds_at_concat(s, pos, i64_le_bytes(self.client_request_timestamp), t2);
        lemma_i64_le_round_trip(s, pos, self.client_request_timestamp);
        let p1 = pos + i64_le_bytes(self.client_request_timestamp).len();
        lemma_i64_le_round_trip(s, p1, self.server_reception_timestamp);
    }
}

/// A world event at a position; the event is its signed variable-length code.
#[derive(Debug, Clone, Copy, PartialEq, Eq, Structural, Default)]
pub struct LevelEvent {
    pub event: i32,
    pub position: Position,
    pub data: i32,
}

impl LevelEvent {
    /// The fields in declaration order.
    pub open spec fn spec_bytes(self) -> Seq<u8> {
        var_i32_bytes(self.event)
            + (self.position.spec_bytes()
            + var_i32_bytes(self.data))
    }

    pub open spec fn parse(s: Seq<u8>, pos: nat) -> Result<(LevelEvent, nat), Error> {
        match parse_var_i32(s, pos) {
            Ok((event, p1)) => match Position::parse(s, p1) {
                Ok((position, p2)) => match parse_var_i32(s, p2) {
                    Ok((data, p3)) => Ok((LevelEvent { event, position, data }, p3)),
                    Err(e) => Err(e),
                },
                Err(e) => Err(e),
            },
            Err(e) => Err(e),
        }
    }

    pub fn serialize(&self, out: &mut Vec<u8>)
        ensures
            final(out)@ == old(out)@ + self.spec_bytes(),
    {
        write_var_i32(out, self.event);
        self.position.serialize(out);
        write_var_i32(out, self.data);
        assert(final(out)@ =~= old(out)@ + self.spec_bytes());
    }

    pub fn deserialize(buf: &[u8], pos: usize) -> (r: Result<(Self, usize), Error>)
        ensures
            agrees(r, Self::parse(buf@, pos as nat), buf@.len()),
    {
        let (event, p1) = match read_var_i32(buf, pos) {
            Ok(x) => x,
            Err(e) => return Err(e),
        };
        let (position, p2) = match Position::deserialize(buf, p1) {
            Ok(x) => x,
            Err(e) => return Err(e),
        };
        let (data, p3) = match read_var_i32(buf, p2) {
            Ok(x) => x,
            Err(e) => return Err(e),
        };
        Ok((LevelEvent { event, position, data }, p3))
    }

    /// Decoding the bytes of a value gives it back and consumes exactly those bytes.
    pub proof fn lemma_round_trip(self, s: Seq<u8>, pos: nat)
        requires
            holds_at(s, pos, self.spec_bytes()),
        ensures
            Self::parse(s, pos) == Ok::<(LevelEvent, nat), Error>(
                (self, pos + self.spec_bytes().len()),
            ),
    {
        let t3 = var_i32_bytes(self.data);
        let t2 = self.position.spec_bytes() + t3;
        lemma_holds_at_concat(s, pos, var_i32_bytes(self.event), t2);
        lemma_var_i32_round_trip(s, pos, self.event);
        let p1 = pos + var_i32_bytes(self.event).len();
        lemma_holds_at_concat(s, p1, self.position.spec_bytes(), t3);
        self.position.lemma_round_trip(s, p1);
        let p2 = p1 + self.position.spec_bytes().len();
        lemma_var_i32_round_trip(s, p2, self.data);
    }
}

/// An event of a block, such as a chest opening.
#[derive(Debug, Clone, Copy, PartialEq, Eq, Structural, Default)]
pub struct BlockEvent {
    pub position: UBlockPos,
    pub event_type: i32,
    pub data: i32,
}

impl BlockEvent {
    /// The fields in declaration order.
    pub open spec fn spec_bytes(self) -> Seq<u8> {
        self.position.spec_bytes()
            + (var_i32_bytes(self.event_type)
            + var_i32_bytes(self.data))
    }

    pub open spec fn parse(s: Seq<u8>, pos: nat) -> Result<(BlockEvent, nat), Error> {
        match UBlockPos::parse(s, pos) {
            Ok((position, p1)) => match parse_var_i32(s, p1) {
                Ok((event_type, p2)) => match parse_var_i32(s, p2) {
                    Ok((data, p3)) => Ok((BlockEvent { position, event_type, data }, p3)),
                    Err(e) => Err(e),
                },
                Err(e) => Err(e),
            },
            Err(e) => Err(e),
        }
    }

    pub fn serialize(&self, out: &mut Vec<u8>)
        ensures
            final(out)@ == old(out)@ + self.spec_bytes(),
    {
        self.position.serialize(out);
        write_var_i32(out, self.event_type);
        write_var_i32(out, self.data);
        assert(final(out)@ =~= old(out)@ + self.spec_bytes());
    }

    pub fn deserialize(buf: &[u8], pos: usize) -> (r: Result<(Self, usize), Error>)
        ensures
            agrees(r, Self::parse(buf@, pos as nat), buf@.len()),
    {
        let (position, p1) = match UBlockPos::deserialize(buf, pos) {
            Ok(x) => x,
            Err(e) => return Err(e),
        };
        let (event_type, p2) = match read_var_i32(buf, p1) {
            Ok(x) => x,
            Err(e) => return Err(e),
        };
        let (data, p3) = match read_var_i32(buf, p2) {
            Ok(x) => x,
            Err(e) => return Err(e),
        };
        Ok((BlockEvent { position, event_type, data }, p3))
    }

    /// Decoding the bytes of a value gives it back and consumes exactly those bytes.
    pub proof fn lemma_round_trip(self, s: Seq<u8>, pos: nat)
        requires
            holds_at(s, pos, self.spec_bytes()),
        ensures
            Self::parse(s, pos) == Ok::<(BlockEvent, nat), Error>(
                (self, pos + self.spec_bytes().len()),
            ),
    {
        let t3 = var_i32_bytes(self.data);
        let t2 = var_i32_bytes(self.event_type) + t3;
        lemma_holds_at_concat(s, pos, self.position.spec_bytes(), t2);
        self.position.lemma_round_trip(s, pos);
        let p1 = pos + self.position.spec_bytes().len();
        lemma_holds_at_concat(s, p1, var_i32_bytes(self.event_type), t3);
        lemma_var_i32_round_trip(s, p1, self.event_type);
        let p2 = p1 + var_i32_bytes(self.event_type).len();
        lemma_var_i32_round_trip(s, p2, self.data);
    }
}

/// An event of an entity; the event is its one-byte code.
#[derive(Debug, Clone, Copy, PartialEq, Eq, Structural, Default)]
pub struct ActorEvent {
    pub entity_runtime_id: u64,
    pub event_type: u8,
    pub event_data: i32,
}

impl ActorEvent {
    /// The fields in declaration order.
    pub open spec fn spec_bytes(self) -> Seq<u8> {
        var_bytes(self.entity_runtime_id as nat)
            + (seq![self.event_type]
            + var_i32_bytes(self.event_data))
    }

    pub open spec fn parse(s: Seq<u8>, pos: nat) -> Result<(ActorEvent, nat), Error> {
        match parse_var_u64(s, pos) {
            Ok((entity_runtime_id, p1)) => match parse_u8(s, p1) {
                Ok((event_type, p2)) => match parse_var_i32(s, p2) {
                    Ok((event_data, p3)) => Ok(
                        (
                            ActorEvent {
                                entity_runtime_id,
                                event_type,
                                event_data,
                            },
                            p3,
                        ),
                    ),
                    Err(e) => Err(e),
                },
                Err(e) => Err(e),
            },
            Err(e) => Err(e),
        }
    }

    pub fn serialize(&self, out: &mut Vec<u8>)
        ensures
            final(out)@ == old(out)@ + self.spec_bytes(),
    {
        write_var_u64(out, self.entity_runtime_id);
        write_u8(out, self.event_type);
        write_var_i32(out, self.event_data);
        assert(final(out)@ =~= old(out)@ + self.spec_bytes());
    }

    pub fn deserialize(buf: &[u8], pos: usize) -> (r: Result<(Self, usize), Error>)
        ensures
            agrees(r, Self::parse(buf@, pos as nat), buf@.len()),
    {
        let (entity_runtime_id, p1) = match read_var_u64(buf, pos) {
            Ok(x) => x,
            Err(e) => return Err(e),
        };
        let (event_type, p2) = match read_u8(buf, p1) {
            Ok(x) => x,
            Err(e) => return Err(e),
        };
        let (event_data, p3) = match read_var_i32(buf, p2) {
            Ok(x) => x,
            Err(e) => return Err(e),
        };
        Ok((ActorEvent { entity_runtime_id, event_type, event_data }, p3))
    }

    /// Decoding the bytes of a value gives it back and consumes exactly those bytes.
    pub proof fn lemma_round_trip(self, s: Seq<u8>, pos: nat)
        requires
            holds_at(s, pos, self.spec_bytes()),
        ensures
            Self::parse(s, pos) == Ok::<(ActorEvent, nat), Error>(
                (self, pos + self.spec_bytes().len()),
            ),
    {
        let t3 = var_i32_bytes(self.event_data);
        let t2 = seq![self.event_type] + t3;
        lemma_holds_at_concat(s, pos, var_bytes(self.entity_runtime_id as nat), t2);
        lemma_var_u64_round_trip(s, pos, self.entity_runtime_id);
        let p1 = pos + var_bytes(self.entity_runtime_id as nat).len();
        lemma_holds_at_concat(s, p1, seq![self.event_type], t3);
        lemma_u8_round_trip(s, p1, self.event_type);
        let p2 = p1 + seq![self.event_type].len();
        lemma_var_i32_round_trip(s, p2, self.event_data);
    }
}

/// Adds, changes or removes an effect on an entity.
#[derive(Debug, Clone, Copy, PartialEq, Eq, Structural, Default)]
pub struct MobEffect {
    pub entity_runtime_id: u64,
    pub operation: MobEffectOperation,
    pub effect_type: MobEffectType,
    pub amplifier: i32,
    pub particles: bool,
    pub duration: i32,
}

impl MobEffect {
    /// The fields in declaration order.
    pub open spec fn spec_bytes(self) -> Seq<u8> {
        var_bytes(self.entity_runtime_id as nat)
            + (self.operation.spec_bytes()
            + (self.effect_type.spec_bytes()
            + (var_i32_bytes(self.amplifier)
            + (bool_bytes(self.particles)
            + var_i32_bytes(self.duration)))))
    }

    pub open spec fn parse(s: Seq<u8>, pos: nat) -> Result<(MobEffect, nat), Error> {
        match parse_var_u64(s, pos) {
            Ok((entity_runtime_id, p1)) => match MobEffectOperation::parse(s, p1) {
                Ok((operation, p2)) => match MobEffectType::parse(s, p2) {
                    Ok((effect_type, p3)) => match parse_var_i32(s, p3) {
                        Ok((amplifier, p4)) => match parse_bool(s, p4) {
                            Ok((particles, p5)) => match parse_var_i32(s, p5) {
                                Ok((duration, p6)) => Ok(
                                    (
                                        MobEffect {
                                            entity_runtime_id,
                                            operation,
                                            effect_type,
                                            amplifier,
                                            particles,
                                            duration,
                                        },
                                        p6,
                                    ),
                                ),
                                Err(e) => Err(e),
                            },
                            Err(e) => Err(e),
                        },
                        Err(e) => Err(e),
                    },
                    Err(e) => Err(e),
                },
                Err(e) => Err(e),
            },
            Err(e) => Err(e),
        }
    }

    pub fn serialize(&self, out: &mut Vec<u8>)
        ensures
            final(out)@ == old(out)@ + self.spec_bytes(),
    {
        write_var_u64(out, self.entity_runtime_id);
        self.operation.serialize(out);
        self.effect_type.serialize(out);
        write_var_i32(out, self.amplifier);
        write_bool(out, self.particles);
        write_var_i32(out, self.duration);
        assert(final(out)@ =~= old(out)@ + self.spec_bytes());
    }

    pub fn deserialize(buf: &[u8], pos: usize) -> (r: Result<(Self, usize), Error>)
        ensures
            agrees(r, Self::parse(buf@, pos as nat), buf@.len()),
    {
        let (entity_runtime_id, p1) = match read_var_u64(buf, pos) {
            Ok(x) => x,
            Err(e) => return Err(e),
        };
        let (operation, p2) = match MobEffectOperation::deserialize(buf, p1) {
            Ok(x) => x,
            Err(e) => return Err(e),
        };
        let (effect_type, p3) = match MobEffectType::deserialize(buf, p2) {
            Ok(x) => x,
            Err(e) => return Err(e),
        };
        let (amplifier, p4) = match read_var_i32(buf, p3) {
            Ok(x) => x,
            Err(e) => return Err(e),
        };
        let (particles, p5) = match read_bool(buf, p4) {
            Ok(x) => x,
            Err(e) => return Err(e),
        };
        let (duration, p6) = match read_var_i32(buf, p5) {
            Ok(x) => x,
            Err(e) => return Err(e),
        };
        Ok(
            (
                MobEffect {
                    entity_runtime_id,
                    operation,
                    effect_type,
                    amplifier,
                    particles,
                    duration,
                },
                p6,
            ),
        )
    }

    /// Decoding the bytes of a value gives it back and consumes exactly those bytes.
    pub proof fn lemma_round_trip(self, s: Seq<u8>, pos: nat)
        requires
            holds_at(s, pos, self.spec_bytes()),
        ensures
            Self::parse(s, pos) == Ok::<(MobEffect, nat), Error>(
                (self, pos + self.spec_bytes().len()),
            ),
    {
        let t6 = var_i32_bytes(self.duration);
        let t5 = bool_bytes(self.particles) + t6;
        let t4 = var_i32_bytes(self.amplifier) + t5;
        let t3 = self.effect_type.spec_bytes() + t4;
        let t2 = self.operation.spec_bytes() + t3;
        lemma_holds_at_concat(s, pos, var_bytes(self.entity_runtime_id as nat), t2);
        lemma_var_u64_round_trip(s, pos, self.entity_runtime_id);
        let p1 = pos + var_bytes(self.entity_runtime_id as nat).len();
        lemma_holds_at_concat(s, p1, self.operation.spec_bytes(), t3);
        self.operation.lemma_round_trip(s, p1);
        let p2 = p1 + self.operation.spec_bytes().len();
        lemma_holds_at_concat(s, p2, self.effect_type.spec_bytes(), t4);
        self.effect_type.lemma_round_trip(s, p2);
        let p3 = p2 + self.effect_type.spec_bytes().len();
        lemma_holds_at_concat(s, p3, var_i32_bytes(self.amplifier), t5);
        lemma_var_i32_round_trip(s, p3, self.amplifier);
        let p4 = p3 + var_i32_bytes(self.amplifier).len();
        lemma_holds_at_concat(s, p4, bool_bytes(self.particles), t6);
        lemma_bool_round_trip(s, p4, self.particles);
        let p5 = p4 + bool_bytes(self.particles).len();
        lemma_var_i32_round_trip(s, p5, self.duration);
    }
}

/// A player interacts with an entity.
#[derive(Debug, Clone, Copy, PartialEq, Eq, Structural, Default)]
pub struct Interact {
    pub action_type: InteractAction,
    pub target_runtime_id: u64,
    pub position: Position,
}

impl Interact {
    /// The fields in declaration order.
    pub open spec fn spec_bytes(self) -> Seq<u8> {
        self.action_type.spec_bytes()
            + (var_bytes(self.target_runtime_id as nat)
            + self.position.spec_bytes())
    }

    pub open spec fn parse(s: Seq<u8>, pos: nat) -> Result<(Interact, nat), Error> {
        match InteractAction::parse(s, pos) {
            Ok((action_type, p1)) => match parse_var_u64(s, p1) {
                Ok((target_runtime_id, p2)) => match Position::parse(s, p2) {
                    Ok((position, p3)) => Ok(
                        (
                            Interact {
                                action_type,
                                target_runtime_id,
                                position,
                            },
                            p3,
                        ),
                    ),
                    Err(e) => Err(e),
                },
                Err(e) => Err(e),
            },
            Err(e) => Err(e),
        }
    }

    pub fn serialize(&self, out: &mut Vec<u8>)
        ensures
            final(out)@ == old(out)@ + self.spec_bytes(),
    {
        self.action_type.serialize(out);
        write_var_u64(out, self.target_runtime_id);
        self.position.serialize(out);
        assert(final(out)@ =~= old(out)@ + self.spec_bytes());
    }

    pub fn deserialize(buf: &[u8], pos: usize) -> (r: Result<(Self, usize), Error>)
        ensures
            agrees(r, Self::parse(buf@, pos as nat), buf@.len()),
    {
        let (action_type, p1) = match InteractAction::deserialize(buf, pos) {
            Ok(x) => x,
            Err(e) => return Err(e),
        };
        let (target_runtime_id, p2) = match read_var_u64(buf, p1) {
            Ok(x) => x,
            Err(e) => return Err(e),
        };
        let (position, p3) = match Position::deserialize(buf, p2) {
            Ok(x) => x,
            Err(e) => return Err(e),
        };
        Ok((Interact { action_type, target_runtime_id, position }, p3))
    }

    /// Decoding the bytes of a value gives it back and consumes exactly those bytes.
    pub proof fn lemma_round_trip(self, s: Seq<u8>, pos: nat)
        requires
            holds_at(s, pos, self.spec_bytes()),
        ensures
            Self::parse(s, pos) == Ok::<(Interact, nat), Error>(
                (self, pos + self.spec_bytes().len()),
            ),
    {
        let t3 = self.position.spec_bytes();
        let t2 = var_bytes(self.target_runtime_id as nat) + t3;
        lemma_holds_at_concat(s, pos, self.action_type.spec_bytes(), t2);
        self.action_type.lemma_round_trip(s, pos);
        let p1 = pos + self.action_type.spec_bytes().len();
        lemma_holds_at_concat(s, p1, var_bytes(self.target_runtime_id as nat), t3);
        lemma_var_u64_round_trip(s, p1, self.target_runtime_id);
        let p2 = p1 + var_bytes(self.target_runtime_id as nat).len();
        self.position.lemma_round_trip(s, p2);
    }
}

/// A player picks a block into the hotbar.
#[derive(Debug, Clone, Copy, PartialEq, Eq, Structural, Default)]
pub struct BlockPickRequest {
    pub position: Position,
    pub add_block_nbt: bool,
    pub hotbar_style: u8,
}

impl BlockPickRequest {
    /// The fields in declaration order.
    pub open spec fn spec_bytes(self) -> Seq<u8> {
        self.position.spec_bytes()
            + (bool_bytes(self.add_block_nbt)
            + seq![self.hotbar_style])
    }

    pub open spec fn parse(s: Seq<u8>, pos: nat) -> Result<(BlockPickRequest, nat), Error> {
        match Position::parse(s, pos) {
            Ok((position, p1)) => match parse_bool(s, p1) {
                Ok((add_block_nbt, p2)) => match parse_u8(s, p2) {
                    Ok((hotbar_style, p3)) => Ok(
                        (
                            BlockPickRequest {
                                position,
                                add_block_nbt,
                                hotbar_style,
                            },
                            p3,
                        ),
                    ),
                    Err(e) => Err(e),
                },
                Err(e) => Err(e),
            },
            Err(e) => Err(e),
        }
    }

    pub fn serialize(&self, out: &mut Vec<u8>)
        ensures
            final(out)@ == old(out)@ + self.spec_bytes(),
    {
        self.position.serialize(out);
        write_bool(out, self.add_block_nbt);
        write_u8(out, self.hotbar_style);
        assert(final(out)@ =~= old(out)@ + self.spec_bytes());
    }

    pub fn deserialize(buf: &[u8], pos: usize) -> (r: Result<(Self, usize), Error>)
        ensures
            agrees(r, Self::parse(buf@, pos as nat), buf@.len()),
    {
        let (position, p1) = match Position::deserialize(buf, pos) {
            Ok(x) => x,
            Err(e) => return Err(e),
        };
        let (add_block_nbt, p2) = match read_bool(buf, p1) {
            Ok(x) => x,
            Err(e) => return Err(e),
        };
        let (hotbar_style, p3) = match read_u8(buf, p2) {
            Ok(x) => x,
            Err(e) => return Err(e),
        };
        Ok((BlockPickRequest { position, add_block_nbt, hotbar_style }, p3))
    }

    /// Decoding the bytes of a value gives it back and consumes exactly those bytes.
    pub proof fn lemma_round_trip(self, s: Seq<u8>, pos: nat)
        requires
            holds_at(s, pos, self.spec_bytes()),
        ensures
            Self::parse(s, pos) == Ok::<(BlockPickRequest, nat), Error>(
                (self, pos + self.spec_bytes().len()),
            ),
    {
        let t3 = seq![self.hotbar_style];
        let t2 = bool_bytes(self.add_block_nbt) + t3;
        lemma_holds_at_concat(s, pos, self.position.spec_bytes(), t2);
        self.position.lemma_round_trip(s, pos);
        let p1 = pos + self.position.spec_bytes().len();
        lemma_holds_at_concat(s, p1, bool_bytes(self.add_block_nbt), t3);
        lemma_bool_round_trip(s, p1, self.add_block_nbt);
        let p2 = p1 + bool_bytes(self.add_block_nbt).len();
        lemma_u8_round_trip(s, p2, self.hotbar_style);
    }
}

/// A player picks an entity into the hotbar.
#[derive(Debug, Clone, Copy, PartialEq, Eq, Structural, Default)]
pub struct ActorPickRequest {
    pub entity_unique_id: i64,
    pub hotbar_slot: u8,
    pub with_data: bool,
}

impl ActorPickRequest {
    /// The fields in declaration order.
    pub open spec fn spec_bytes(self) -> Seq<u8> {
        i64_le_bytes(self.entity_unique_id)
            + (seq![self.hotbar_slot]
            + bool_bytes(self.with_data))
    }

    pub open spec fn parse(s: Seq<u8>, pos: nat) -> Result<(ActorPickRequest, nat), Error> {
        match parse_i64_le(s, pos) {
            Ok((entity_unique_id, p1)) => match parse_u8(s, p1) {
                Ok((hotbar_slot, p2)) => match parse_bool(s, p2) {
                    Ok((with_data, p3)) => Ok(
                        (
                            ActorPickRequest {
                                entity_unique_id,
                                hotbar_slot,
                                with_data,
                            },
                            p3,
                        ),
                    ),
                    Err(e) => Err(e),
                },
                Err(e) => Err(e),
            },
            Err(e) => Err(e),
        }
    }

    pub fn serialize(&self, out: &mut Vec<u8>)
        ensures
            final(out)@ == old(out)@ + self.spec_bytes(),
    {
        write_i64_le(out, self.entity_unique_id);
        write_u8(out, self.hotbar_slot);
        write_bool(out, self.with_data);
        assert(final(out)@ =~= old(out)@ + self.spec_bytes());
    }

    pub fn deserialize(buf: &[u8], pos: usize) -> (r: Result<(Self, usize), Error>)
        ensures
            agrees(r, Self::parse(buf@, pos as nat), buf@.len()),
    {
        let (entity_unique_id, p1) = match read_i64_le(buf, pos) {
            Ok(x) => x,
            Err(e) => return Err(e),
        };
        let (hotbar_slot, p2) = match read_u8(buf, p1) {
            Ok(x) => x,
            Err(e) => return Err(e),
        };
        let (with_data, p3) = match read_bool(buf, p2) {
            Ok(x) => x,
            Err(e) => return Err(e),
        };
        Ok((ActorPickRequest { entity_unique_id, hotbar_slot, with_data }, p3))
    }

    /// Decoding the bytes of a value gives it back and consumes exactly those bytes.
    pub proof fn lemma_round_trip(self, s: Seq<u8>, pos: nat)
        requires
            holds_at(s, pos, self.spec_bytes()),
        ensures
            Self::parse(s, pos) == Ok::<(ActorPickRequest, nat), Error>(
                (self, pos + self.spec_bytes().len()),
            ),
    {
        let t3 = bool_bytes(self.with_data);
        let t2 = seq![self.hotbar_slot] + t3;
        lemma_holds_at_concat(s, pos, i64_le_bytes(self.entity_unique_id), t2);
        lemma_i64_le_round_trip(s, pos, self.entity_unique_id);
        let p1 = pos + i64_le_bytes(self.entity_unique_id).len();
        lemma_holds_at_concat(s, p1, seq![self.hotbar_slot], t3);
        lemma_u8_round_trip(s, p1, self.hotbar_slot);
        let p2 = p1 + seq![self.hotbar_slot].len();
        lemma_bool_round_trip(s, p2, self.with_data);
    }
}

/// A player performs an action on a block.
#[derive(Debug, Clone, Copy, PartialEq, Eq, Structural, Default)]
pub struct PlayerAction {
    pub entity_runtime_id: u64,
    pub action_type: i32,
    pub block_pos: UBlockPos,
    pub result_pos: UBlockPos,
    pub block_face: i32,
}

impl PlayerAction {
    /// The fields in declaration order.
    pub open spec fn spec_bytes(self) -> Seq<u8> {
        var_bytes(self.entity_runtime_id as nat)
            + (var_i32_bytes(self.action_type)
            + (self.block_pos.spec_bytes()
            + (self.result_pos.spec_bytes()
            + var_i32_bytes(self.block_face))))
    }

    pub open spec fn parse(s: Seq<u8>, pos: nat) -> Result<(PlayerAction, nat), Error> {
        match parse_var_u64(s, pos) {
            Ok((entity_runtime_id, p1)) => match parse_var_i32(s, p1) {
                Ok((action_type, p2)) => match UBlockPos::parse(s, p2) {
                    Ok((block_pos, p3)) => match UBlockPos::parse(s, p3) {
                        Ok((result_pos, p4)) => match parse_var_i32(s, p4) {
                            Ok((block_face, p5)) => Ok(
                                (
                                    PlayerAction {
                                        entity_runtime_id,
                                        action_type,
                                        block_pos,
                                        result_pos,
                                        block_face,
                                    },
                                    p5,
                                ),
                            ),
                            Err(e) => Err(e),
                        },
                        Err(e) => Err(e),
                    },
                    Err(e) => Err(e),
                },
                Err(e) => Err(e),
            },
            Err(e) => Err(e),
        }
    }

    pub fn serialize(&self, out: &mut Vec<u8>)
        ensures
            final(out)@ == old(out)@ + self.spec_bytes(),
    {
        write_var_u64(out, self.entity_runtime_id);
        write_var_i32(out, self.action_type);
        self.block_pos.serialize(out);
        self.result_pos.serialize(out);
        write_var_i32(out, self.block_face);
        assert(final(out)@ =~= old(out)@ + self.spec_bytes());
    }

    pub fn deserialize(buf: &[u8], pos: usize) -> (r: Result<(Self, usize), Error>)
        ensures
            agrees(r, Self::parse(buf@, pos as nat), buf@.len()),
    {
        let (entity_runtime_id, p1) = match read_var_u64(buf, pos) {
            Ok(x) => x,
            Err(e) => return Err(e),
        };
        let (action_type, p2) = match read_var_i32(buf, p1) {
            Ok(x) => x,
            Err(e) => return Err(e),
        };
        let (block_pos, p3) = match UBlockPos::deserialize(buf, p2) {
            Ok(x) => x,
            Err(e) => return Err(e),
        };
        let (result_pos, p4) = match UBlockPos::deserialize(buf, p3) {
            Ok(x) => x,
            Err(e) => return Err(e),
        };
        let (block_face, p5) = match read_var_i32(buf, p4) {
            Ok(x) => x,
            Err(e) => return Err(e),
        };
        Ok(
            (
                PlayerAction {
                    entity_runtime_id,
                    action_type,
                    block_pos,
                    result_pos,
                    block_face,
                },
                p5,
            ),
        )
    }

    /// Decoding the bytes of a value gives it back and consumes exactly those bytes.
    pub proof fn lemma_round_trip(self, s: Seq<u8>, pos: nat)
        requires
            holds_at(s, pos, self.spec_bytes()),
        ensures
            Self::parse(s, pos) == Ok::<(PlayerAction, nat), Error>(
                (self, pos + self.spec_bytes().len()),
            ),
    {
        let t5 = var_i32_bytes(self.block_face);
        let t4 = self.result_pos.spec_bytes() + t5;
        let t3 = self.block_pos.spec_bytes() + t4;
        let t2 = var_i32_bytes(self.action_type) + t3;
        lemma_holds_at_concat(s, pos, var_bytes(self.entity_runtime_id as nat), t2);
        lemma_var_u64_round_trip(s, pos, self.entity_runtime_id);
        let p1 = pos + var_bytes(self.entity_runtime_id as nat).len();
        lemma_holds_at_concat(s, p1, var_i32_bytes(self.action_type), t3);
        lemma_var_i32_round_trip(s, p1, self.action_type);
        let p2 = p1 + var_i32_bytes(self.action_type).len();
        lemma_holds_at_concat(s, p2, self.block_pos.spec_bytes(), t4);
        self.block_pos.lemma_round_trip(s, p2);
        let p3 = p2 + self.block_pos.spec_bytes().len();
        lemma_holds_at_concat(s, p3, self.result_pos.spec_bytes(), t5);
        self.result_pos.lemma_round_trip(s, p3);
        let p4 = p3 + self.result_pos.spec_bytes().len();
        lemma_var_i32_round_trip(s, p4, self.block_face);
    }
}

/// Updates attributes of an entity.
#[derive(Debug, Clone, PartialEq, Eq, Default)]
pub struct UpdateAttributes {
    pub entity_runtime_id: u64,
    pub attributes: Vec<Attribute>,
    pub tick: u64,
}

/// The value of a `UpdateAttributes`, with its text and byte fields as sequences.
pub ghost struct UpdateAttributesView {
    pub entity_runtime_id: u64,
    pub attributes: Seq<AttributeView>,
    pub tick: u64,
}

impl View for UpdateAttributes {
    type V = UpdateAttributesView;

    open spec fn view(&self) -> UpdateAttributesView {
        UpdateAttributesView {
            entity_runtime_id: self.entity_runtime_id,
            attributes: items_view(self.attributes@),
            tick: self.tick,
        }
    }
}

impl UpdateAttributes {
    /// The fields in declaration order.
    pub open spec fn spec_bytes(self) -> Seq<u8> {
        var_bytes(self.entity_runtime_id as nat)
            + (counted_items(Width::Var, self.attributes@)
            + var_bytes(self.tick as nat))
    }

    /// Every text and byte field fits its length prefix.
    pub open spec fn wf(self) -> bool {
        counted_items_fit(Width::Var, self.attributes@)
    }

    pub open spec fn parse(s: Seq<u8>, pos: nat) -> Result<(UpdateAttributesView, nat), Error> {
        match parse_var_u64(s, pos) {
            Ok((entity_runtime_id, p1)) => match parse_counted_items::<Attribute>(Width::Var, s, p1) {
                Ok((attributes, p2)) => match parse_var_u64(s, p2) {
                    Ok((tick, p3)) => Ok(
                        (
                            UpdateAttributesView {
                                entity_runtime_id,
                                attributes,
                                tick,
                            },
                            p3,
                        ),
                    ),
                    Err(e) => Err(e),
                },
                Err(e) => Err(e),
            },
            Err(e) => Err(e),
        }
    }

    pub fn serialize(&self, out: &mut Vec<u8>)
        ensures
            final(out)@ == old(out)@ + self.spec_bytes(),
    {
        write_var_u64(out, self.entity_runtime_id);
        write_counted_items(out, Width::Var, &self.attributes);
        write_var_u64(out, self.tick);
        assert(final(out)@ =~= old(out)@ + self.spec_bytes());
    }

    pub fn deserialize(buf: &[u8], pos: usize) -> (r: Result<(Self, usize), Error>)
        ensures
            agrees_view(r, Self::parse(buf@, pos as nat), buf@.len()),
    {
        let (entity_runtime_id, p1) = match read_var_u64(buf, pos) {
            Ok(x) => x,
            Err(e) => return Err(e),
        };
        let (attributes, p2) = match read_counted_items::<Attribute>(buf, p1, Width::Var) {
            Ok(x) => x,
            Err(e) => return Err(e),
        };
        let (tick, p3) = match read_var_u64(buf, p2) {
            Ok(x) => x,
            Err(e) => return Err(e),
        };
        Ok((UpdateAttributes { entity_runtime_id, attributes, tick }, p3))
    }

    /// Decoding the bytes of a value gives it back and consumes exactly those bytes.
    #[verifier::rlimit(60)]
    pub proof fn lemma_round_trip(self, s: Seq<u8>, pos: nat)
        requires
            self.wf(),
            holds_at(s, pos, self.spec_bytes()),
        ensures
            Self::parse(s, pos) == Ok::<(UpdateAttributesView, nat), Error>(
                (self@, pos + self.spec_bytes().len()),
            ),
    {
        let t3 = var_bytes(self.tick as nat);
        let t2 = counted_items(Width::Var, self.attributes@) + t3;
        lemma_holds_at_concat(s, pos, var_bytes(self.entity_runtime_id as nat), t2);
        lemma_var_u64_round_trip(s, pos, self.entity_runtime_id);
        let p1 = pos + var_bytes(self.entity_runtime_id as nat).len();
        lemma_holds_at_concat(s, p1, counted_items(Width::Var, self.attributes@), t3);
        lemma_counted_items_round_trip::<Attribute>(Width::Var, s, p1, self.attributes@);
        let p2 = p1 + counted_items(Width::Var, self.attributes@).len();
        lemma_var_u64_round_trip(s, p2, self.tick);
    }
}

/// Damages the armour of a player.
#[derive(Debug, Clone, Copy, PartialEq, Eq, Structural, Default)]
pub struct HurtArmor {
    pub cause: i32,
    pub damage: i32,
}

impl HurtArmor {
    /// The fields in declaration order.
    pub open spec fn spec_bytes(self) -> Seq<u8> {
        var_i32_bytes(self.cause)
            + var_i32_bytes(self.damage)
    }

    pub open spec fn parse(s: Seq<u8>, pos: nat) -> Result<(HurtArmor, nat), Error> {
        match parse_var_i32(s, pos) {
            Ok((cause, p1)) => match parse_var_i32(s, p1) {
                Ok((damage, p2)) => Ok((HurtArmor { cause, damage }, p2)),
                Err(e) => Err(e),
            },
            Err(e) => Err(e),
        }
    }

    pub fn serialize(&self, out: &mut Vec<u8>)
        ensures
            final(out)@ == old(out)@ + self.spec_bytes(),
    {
        write_var_i32(out, self.cause);
        write_var_i32(out, self.damage);
        assert(final(out)@ =~= old(out)@ + self.spec_bytes());
    }

    pub fn deserialize(buf: &[u8], pos: usize) -> (r: Result<(Self, usize), Error>)
        ensures
            agrees(r, Self::parse(buf@, pos as nat), buf@.len()),
    {
        let (cause, p1) = match read_var_i32(buf, pos) {
            Ok(x) => x,
            Err(e) => return Err(e),
        };
        let (damage, p2) = match read_var_i32(buf, p1) {
            Ok(x) => x,
            Err(e) => return Err(e),
        };
        Ok((HurtArmor { cause, damage }, p2))
    }

    /// Decoding the bytes of a value gives it back and consumes exactly those bytes.
    pub proof fn lemma_round_trip(self, s: Seq<u8>, pos: nat)
        requires
            holds_at(s, pos, self.spec_bytes()),
        ensures
            Self::parse(s, pos) == Ok::<(HurtArmor, nat), Error>(
                (self, pos + self.spec_bytes().len()),
            ),
    {
        let t2 = var_i32_bytes(self.damage);
        lemma_holds_at_concat(s, pos, var_i32_bytes(self.cause), t2);
        lemma_var_i32_round_trip(s, pos, self.cause);
        let p1 = pos + var_i32_bytes(self.cause).len();
        lemma_var_i32_round_trip(s, p1, self.damage);
    }
}

/// Tells a client it is being disconnected. The message is written only when
/// the disconnect screen is shown.
#[derive(Debug, Clone, PartialEq, Eq, Default)]
pub struct Disconnect {
    pub hide_screen: bool,
    pub message: Option<String>,
}

/// The value of a `Disconnect`, with its message as a character sequence.
pub ghost struct DisconnectView {
    pub hide_screen: bool,
    pub message: Option<Seq<char>>,
}

impl View for Disconnect {
    type V = DisconnectView;

    open spec fn view(&self) -> DisconnectView {
        DisconnectView {
            hide_screen: self.hide_screen,
            message: match self.message {
                Some(m) => Some(m@),
                None => None,
            },
        }
    }
}

impl Disconnect {
    /// A shown screen needs a message to show.
    pub open spec fn can_encode(self) -> bool {
        !self.hide_screen ==> self.message is Some
    }

    /// A hidden screen carries no message, and a shown one carries a message
    /// that fits its length prefix: the values that decoding reproduces.
    pub open spec fn wf(self) -> bool {
        match self.message {
            Some(m) => !self.hide_screen && text_fits(m@),
            None => self.hide_screen,
        }
    }

    /// `hide_screen`, then the message only if the screen is shown.
    pub open spec fn spec_bytes(self) -> Seq<u8> {
        bool_bytes(self.hide_screen) + if !self.hide_screen {
            var_text(self.message->Some_0@)
        } else {
            Seq::empty()
        }
    }

    pub open spec fn parse(s: Seq<u8>, pos: nat) -> Result<(DisconnectView, nat), Error> {
        match parse_bool(s, pos) {
            Ok((hide_screen, p1)) => if hide_screen {
                Ok((DisconnectView { hide_screen, message: None }, p1))
            } else {
                match parse_var_text(s, p1) {
                    Ok((m, p2)) => Ok((DisconnectView { hide_screen, message: Some(m) }, p2)),
                    Err(e) => Err(e),
                }
            },
            Err(e) => Err(e),
        }
    }

    /// A message beside a hidden screen is not written.
    pub fn serialize(&self, out: &mut Vec<u8>)
        requires
            self.can_encode(),
        ensures
            final(out)@ == old(out)@ + self.spec_bytes(),
    {
        write_bool(out, self.hide_screen);
        if !self.hide_screen {
            match &self.message {
                Some(m) => write_var_text(out, m),
                None => {},
            }
        }
        assert(final(out)@ =~= old(out)@ + self.spec_bytes());
    }

    pub fn deserialize(buf: &[u8], pos: usize) -> (r: Result<(Self, usize), Error>)
        ensures
            agrees_view(r, Self::parse(buf@, pos as nat), buf@.len()),
    {
        let (hide_screen, p1) = match read_bool(buf, pos) {
            Ok(x) => x,
            Err(e) => return Err(e),
        };
        if hide_screen {
            return Ok((Disconnect { hide_screen, message: None }, p1));
        }
        match read_var_text(buf, p1) {
            Ok((m, p2)) => Ok((Disconnect { hide_screen, message: Some(m) }, p2)),
            Err(e) => Err(e),
        }
    }

    /// Decoding the bytes of a well-formed value gives it back and consumes
    /// exactly those bytes.
    pub proof fn lemma_round_trip(self, s: Seq<u8>, pos: nat)
        requires
            self.wf(),
            holds_at(s, pos, self.spec_bytes()),
        ensures
            Self::parse(s, pos) == Ok::<(DisconnectView, nat), Error>(
                (self@, pos + self.spec_bytes().len()),
            ),
    {
        let rest = if !self.hide_screen {
            var_text(self.message->Some_0@)
        } else {
            Seq::empty()
        };
        lemma_holds_at_concat(s, pos, bool_bytes(self.hide_screen), rest);
        lemma_bool_round_trip(s, pos, self.hide_screen);
        if !self.hide_screen {
            lemma_var_text_round_trip(s, pos + 1, self.message->Some_0@);
        }
    }
}

/// The text fields a kind of text message carries between its header and its
/// trailing sender identifiers.
#[derive(Debug, Clone, Copy, PartialEq, Eq, Structural)]
pub enum TextFields {
    /// The source name, then the message.
    SourceAndMessage,
    /// The message alone.
    MessageOnly,
    /// The message, then its substitution parameters.
    MessageAndParameters,
    /// Neither source name, message nor parameters.
    Nothing,
}

/// Which fields a kind of text message carries. Encoding and decoding both
/// consult this one table.
pub open spec fn spec_fields_for(kind: TextType) -> TextFields {
    match kind {
        TextType::Chat | TextType::Whisper | TextType::Announcement => TextFields::SourceAndMessage,
        TextType::Raw | TextType::Tip | TextType::System | TextType::Object
        | TextType::ObjectWhisper | TextType::ObjectAnnouncement => TextFields::MessageOnly,
        TextType::Translation | TextType::Popup | TextType::JukeboxPopup =>
            TextFields::MessageAndParameters,
        TextType::Invalid => TextFields::Nothing,
    }
}

pub fn fields_for(kind: TextType) -> (r: TextFields)
    ensures
        r == spec_fields_for(kind),
{
    match kind {
        TextType::Chat | TextType::Whisper | TextType::Announcement => TextFields::SourceAndMessage,
        TextType::Raw | TextType::Tip | TextType::System | TextType::Object
        | TextType::ObjectWhisper | TextType::ObjectAnnouncement => TextFields::MessageOnly,
        TextType::Translation | TextType::Popup | TextType::JukeboxPopup =>
            TextFields::MessageAndParameters,
        TextType::Invalid => TextFields::Nothing,
    }
}

/// A chat, system or other text message.
#[derive(Debug, Clone, PartialEq, Eq, Default)]
pub struct Text {
    pub text_type: TextType,
    pub needs_translation: bool,
    pub source_name: String,
    pub message: String,
    pub parameters: Vec<String>,
    pub xuid: String,
    pub platform_chat_id: String,
}

/// The value of a `Text`, with its texts as character sequences.
pub ghost struct TextView {
    pub text_type: TextType,
    pub needs_translation: bool,
    pub source_name: Seq<char>,
    pub message: Seq<char>,
    pub parameters: Seq<Seq<char>>,
    pub xuid: Seq<char>,
    pub platform_chat_id: Seq<char>,
}

impl View for Text {
    type V = TextView;

    open spec fn view(&self) -> TextView {
        TextView {
            text_type: self.text_type,
            needs_translation: self.needs_translation,
            source_name: self.source_name@,
            message: self.message@,
            parameters: texts_view(self.parameters@),
            xuid: self.xuid@,
            platform_chat_id: self.platform_chat_id@,
        }
    }
}

/// The bytes of the fields that `fields` selects.
pub open spec fn text_body_bytes(
    fields: TextFields,
    source_name: Seq<char>,
    message: Seq<char>,
    parameters: Seq<Seq<char>>,
) -> Seq<u8> {
    match fields {
        TextFields::SourceAndMessage => var_text(source_name) + var_text(message),
        TextFields::MessageOnly => var_text(message),
        TextFields::MessageAndParameters => var_text(message) + var_count_texts(parameters),
        TextFields::Nothing => Seq::empty(),
    }
}

/// Reads the fields that `fields` selects; those it does not select are empty.
pub open spec fn parse_text_body(fields: TextFields, s: Seq<u8>, pos: nat) -> Result<
    ((Seq<char>, Seq<char>, Seq<Seq<char>>), nat),
    Error,
> {
    match fields {
        TextFields::SourceAndMessage => match parse_var_text(s, pos) {
            Ok((src, p1)) => match parse_var_text(s, p1) {
                Ok((msg, p2)) => Ok(((src, msg, Seq::empty()), p2)),
                Err(e) => Err(e),
            },
            Err(e) => Err(e),
        },
        TextFields::MessageOnly => match parse_var_text(s, pos) {
            Ok((msg, p1)) => Ok(((Seq::empty(), msg, Seq::empty()), p1)),
            Err(e) => Err(e),
        },
        TextFields::MessageAndParameters => match parse_var_text(s, pos) {
            Ok((msg, p1)) => match parse_var_count_texts(s, p1) {
                Ok((params, p2)) => Ok(((Seq::empty(), msg, params), p2)),
                Err(e) => Err(e),
            },
            Err(e) => Err(e),
        },
        TextFields::Nothing => Ok(((Seq::empty(), Seq::empty(), Seq::empty()), pos)),
    }
}

impl Text {
    /// The kind, the translation flag, the fields the kind selects, then the
    /// sender's XUID and platform chat ID whatever the kind.
    pub open spec fn spec_bytes(self) -> Seq<u8> {
        self.text_type.spec_bytes() + bool_bytes(self.needs_translation) + text_body_bytes(
            spec_fields_for(self.text_type),
            self.source_name@,
            self.message@,
            texts_view(self.parameters@),
        ) + var_text(self.xuid@) + var_text(self.platform_chat_id@)
    }

    /// Every text fits its length prefix, and the fields the kind does not
    /// select are empty: the values that decoding reproduces.
    pub open spec fn wf(self) -> bool {
        let fields = spec_fields_for(self.text_type);
        &&& text_fits(self.source_name@)
        &&& text_fits(self.message@)
        &&& var_count_texts_fit(texts_view(self.parameters@))
        &&& text_fits(self.xuid@)
        &&& text_fits(self.platform_chat_id@)
        &&& fields != TextFields::SourceAndMessage ==> self.source_name@.len() == 0
        &&& (fields == TextFields::Nothing ==> self.message@.len() == 0)
        &&& fields != TextFields::MessageAndParameters ==> self.parameters@.len() == 0
    }

    pub open spec fn parse(s: Seq<u8>, pos: nat) -> Result<(TextView, nat), Error> {
        match TextType::parse(s, pos) {
            Ok((text_type, p1)) => match parse_bool(s, p1) {
                Ok((needs_translation, p2)) => match parse_text_body(
                    spec_fields_for(text_type),
                    s,
                    p2,
                ) {
                    Ok(((source_name, message, parameters), p3)) => match parse_var_text(s, p3) {
                        Ok((xuid, p4)) => match parse_var_text(s, p4) {
                            Ok((platform_chat_id, p5)) => Ok(
                                (
                                    TextView {
                                        text_type,
                                        needs_translation,
                                        source_name,
                                        message,
                                        parameters,
                                        xuid,
                                        platform_chat_id,
                                    },
                                    p5,
                                ),
                            ),
                            Err(e) => Err(e),
                        },
                        Err(e) => Err(e),
                    },
                    Err(e) => Err(e),
                },
                Err(e) => Err(e),
            },
            Err(e) => Err(e),
        }
    }

    pub fn serialize(&self, out: &mut Vec<u8>)
        ensures
            final(out)@ == old(out)@ + self.spec_bytes(),
    {
        self.text_type.serialize(out);
        write_bool(out, self.needs_translation);
        match fields_for(self.text_type) {
            TextFields::SourceAndMessage => {
                write_var_text(out, &self.source_name);
                write_var_text(out, &self.message);
            },
            TextFields::MessageOnly => {
                write_var_text(out, &self.message);
            },
            TextFields::MessageAndParameters => {
                write_var_text(out, &self.message);
                write_var_count_texts(out, &self.parameters);
            },
            TextFields::Nothing => {},
        }
        write_var_text(out, &self.xuid);
        write_var_text(out, &self.platform_chat_id);
        assert(final(out)@ =~= old(out)@ + self.spec_bytes());
    }

    pub fn deserialize(buf: &[u8], pos: usize) -> (r: Result<(Self, usize), Error>)
        ensures
            agrees_view(r, Self::parse(buf@, pos as nat), buf@.len()),
    {
        let (text_type, p1) = match TextType::deserialize(buf, pos) {
            Ok(x) => x,
            Err(e) => return Err(e),
        };
        let (needs_translation, p2) = match read_bool(buf, p1) {
            Ok(x) => x,
            Err(e) => return Err(e),
        };
        let mut source_name = String::new();
        let mut message = String::new();
        let mut parameters: Vec<String> = Vec::new();
        let mut p3 = p2;
        match fields_for(text_type) {
            TextFields::SourceAndMessage => {
                let (a, q1) = match read_var_text(buf, p2) {
                    Ok(x) => x,
                    Err(e) => return Err(e),
                };
                let (b, q2) = match read_var_text(buf, q1) {
                    Ok(x) => x,
                    Err(e) => return Err(e),
                };
                source_name = a;
                message = b;
                p3 = q2;
            },
            TextFields::MessageOnly => {
                let (b, q1) = match read_var_text(buf, p2) {
                    Ok(x) => x,
                    Err(e) => return Err(e),
                };
                message = b;
                p3 = q1;
            },
            TextFields::MessageAndParameters => {
                let (b, q1) = match read_var_text(buf, p2) {
                    Ok(x) => x,
                    Err(e) => return Err(e),
                };
                let (c, q2) = match read_var_count_texts(buf, q1) {
                    Ok(x) => x,
                    Err(e) => return Err(e),
                };
                message = b;
                parameters = c;
                p3 = q2;
            },
            TextFields::Nothing => {},
        }
        assert(texts_view(Seq::<String>::empty()) =~= Seq::<Seq<char>>::empty());
        let (xuid, p4) = match read_var_text(buf, p3) {
            Ok(x) => x,
            Err(e) => return Err(e),
        };
        let (platform_chat_id, p5) = match read_var_text(buf, p4) {
            Ok(x) => x,
            Err(e) => return Err(e),
        };
        Ok(
            (
                Text {
                    text_type,
                    needs_translation,
                    source_name,
                    message,
                    parameters,
                    xuid,
                    platform_chat_id,
                },
                p5,
            ),
        )
    }

    /// Decoding the bytes of a well-formed value gives it back and consumes
    /// exactly those bytes.
    pub proof fn lemma_round_trip(self, s: Seq<u8>, pos: nat)
        requires
            self.wf(),
            holds_at(s, pos, self.spec_bytes()),
        ensures
            Self::parse(s, pos) == Ok::<(TextView, nat), Error>((self@, pos + self.spec_bytes().len())),
    {
        let fields = spec_fields_for(self.text_type);
        let a = self.text_type.spec_bytes();
        let b = bool_bytes(self.needs_translation);
        let c = text_body_bytes(
            fields,
            self.source_name@,
            self.message@,
            texts_view(self.parameters@),
        );
        let d = var_text(self.xuid@);
        let e = var_text(self.platform_chat_id@);
        lemma_holds_at_concat(s, pos, a + b + c + d, e);
        lemma_holds_at_concat(s, pos, a + b + c, d);
        lemma_holds_at_concat3(s, pos, a, b, c);
        self.text_type.lemma_round_trip(s, pos);
        lemma_bool_round_trip(s, pos + a.len(), self.needs_translation);
        let p2 = pos + a.len() + b.len();
        match fields {
            TextFields::SourceAndMessage => {
                lemma_holds_at_concat(s, p2, var_text(self.source_name@), var_text(self.message@));
                lemma_var_text_round_trip(s, p2, self.source_name@);
                lemma_var_text_round_trip(s, p2 + var_text(self.source_name@).len(), self.message@);
                assert(texts_view(self.parameters@) =~= Seq::<Seq<char>>::empty());
            },
            TextFields::MessageOnly => {
                lemma_var_text_round_trip(s, p2, self.message@);
                assert(texts_view(self.parameters@) =~= Seq::<Seq<char>>::empty());
                assert(self.source_name@ =~= Seq::<char>::empty());
            },
            TextFields::MessageAndParameters => {
                lemma_holds_at_concat(
                    s,
                    p2,
                    var_text(self.message@),
                    var_count_texts(texts_view(self.parameters@)),
                );
                lemma_var_text_round_trip(s, p2, self.message@);
                lemma_var_count_texts_round_trip(
                    s,
                    p2 + var_text(self.message@).len(),
                    texts_view(self.parameters@),
                );
                assert(self.source_name@ =~= Seq::<char>::empty());
            },
            TextFields::Nothing => {
                assert(texts_view(self.parameters@) =~= Seq::<Seq<char>>::empty());
                assert(self.source_name@ =~= Seq::<char>::empty());
                assert(self.message@ =~= Seq::<char>::empty());
            },
        }
        lemma_var_text_round_trip(s, p2 + c.len(), self.xuid@);
        lemma_var_text_round_trip(s, p2 + c.len() + d.len(), self.platform_chat_id@);
    }
}

} // verus!
