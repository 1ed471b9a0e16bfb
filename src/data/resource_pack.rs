//! Resource pack negotiation.
use crate::error::Error;
use crate::wire::{
    Codec, Encode, Width, agrees, agrees_view, bool_bytes, holds_at, lemma_bool_round_trip,
    lemma_holds_at_concat, lemma_u64_le_round_trip, lemma_var_text_round_trip,
    lemma_width_round_trip, parse_bool, parse_u64_le, parse_var_text, parse_width, read_bool,
    read_u64_le, read_var_text, read_width, text_fits, u64_le_bytes, var_text, width_bytes,
    write_bool, write_u64_le, write_var_text, write_width,
};
use vstd::prelude::*;

verus! {

/// A client's answer during resource pack negotiation.
#[derive(Debug, Clone, Copy, PartialEq, Eq, Structural)]
pub enum ResourcePackResponse {
    Refused,
    SendPacks,
    AllPacksDownloaded,
    Completed,
    Invalid,
}

impl Default for ResourcePackResponse {
    fn default() -> (r: Self)
        ensures
            r == ResourcePackResponse::Invalid,
    {
        ResourcePackResponse::Invalid
    }
}

impl ResourcePackResponse {
    /// The wire integer each variant is tagged with.
    pub open spec fn spec_tag(self) -> u32 {
        match self {
            ResourcePackResponse::Refused => 1,
            ResourcePackResponse::SendPacks => 2,
            ResourcePackResponse::AllPacksDownloaded => 3,
            ResourcePackResponse::Completed => 4,
            ResourcePackResponse::Invalid => 5,
        }
    }

    /// The variant a wire integer decodes to; a tag no variant carries gives `Invalid`.
    pub open spec fn spec_from_tag(t: u32) -> Self {
        if t == 1 {
            ResourcePackResponse::Refused
        } else if t == 2 {
            ResourcePackResponse::SendPacks
        } else if t == 3 {
            ResourcePackResponse::AllPacksDownloaded
        } else if t == 4 {
            ResourcePackResponse::Completed
        } else {
            ResourcePackResponse::Invalid
        }
    }

    pub open spec fn spec_bytes(self) -> Seq<u8> {
        width_bytes(Width::Byte, self.spec_tag())
    }

    pub open spec fn parse(s: Seq<u8>, pos: nat) -> Result<(Self, nat), Error> {
        match parse_width(Width::Byte, s, pos) {
            Ok((t, p)) => Ok((Self::spec_from_tag(t), p)),
            Err(e) => Err(e),
        }
    }

    pub fn tag(&self) -> (r: u32)
        ensures
            r == self.spec_tag(),
    {
        match self {
            ResourcePackResponse::Refused => 1,
            ResourcePackResponse::SendPacks => 2,
            ResourcePackResponse::AllPacksDownloaded => 3,
            ResourcePackResponse::Completed => 4,
            ResourcePackResponse::Invalid => 5,
        }
    }

    pub fn from_tag(t: u32) -> (r: Self)
        ensures
            r == Self::spec_from_tag(t),
    {
        if t == 1 {
            ResourcePackResponse::Refused
        } else if t == 2 {
            ResourcePackResponse::SendPacks
        } else if t == 3 {
            ResourcePackResponse::AllPacksDownloaded
        } else if t == 4 {
            ResourcePackResponse::Completed
        } else {
            ResourcePackResponse::Invalid
        }
    }

    pub fn serialize(&self, out: &mut Vec<u8>)
        ensures
            final(out)@ == old(out)@ + self.spec_bytes(),
    {
        write_width(out, Width::Byte, self.tag());
    }

    pub fn deserialize(buf: &[u8], pos: usize) -> (r: Result<(Self, usize), Error>)
        ensures
            agrees(r, Self::parse(buf@, pos as nat), buf@.len()),
    {
        match read_width(buf, pos, Width::Byte) {
            Ok((t, p)) => Ok((Self::from_tag(t), p)),
            Err(e) => Err(e),
        }
    }

    /// Every variant's tag decodes back to that variant.
    pub proof fn lemma_tag_round_trip(self)
        ensures
            Self::spec_from_tag(self.spec_tag()) == self,
    {
    }

    /// A tag that no variant carries decodes to `Invalid`, never to an error.
    pub proof fn lemma_unknown_tag(t: u32)
        requires
            forall|e: Self| e.spec_tag() != t,
        ensures
            Self::spec_from_tag(t) == ResourcePackResponse::Invalid,
    {
        if Self::spec_from_tag(t) != ResourcePackResponse::Invalid {
            assert(Self::spec_from_tag(t).spec_tag() == t);
        }
    }

    /// Decoding the bytes of a variant gives it back and consumes exactly those bytes.
    pub proof fn lemma_round_trip(self, s: Seq<u8>, pos: nat)
        requires
            holds_at(s, pos, self.spec_bytes()),
        ensures
            Self::parse(s, pos) == Ok::<(Self, nat), Error>((self, pos + self.spec_bytes().len())),
    {
        lemma_width_round_trip(Width::Byte, self.spec_tag(), s, pos);
    }
}

/// A behaviour pack the server offers.
#[derive(Debug, Clone, PartialEq, Eq, Default)]
pub struct BehaviourPackInfo {
    pub uuid: String,
    pub version: String,
    pub size: u64,
    pub content_key: String,
    pub subpack_name: String,
    pub content_identity: String,
    pub has_scripts: bool,
}

/// The value of a `BehaviourPackInfo`, with its text and byte fields as sequences.
pub ghost struct BehaviourPackInfoView {
    pub uuid: Seq<char>,
    pub version: Seq<char>,
    pub size: u64,
    pub content_key: Seq<char>,
    pub subpack_name: Seq<char>,
    pub content_identity: Seq<char>,
    pub has_scripts: bool,
}

impl View for BehaviourPackInfo {
    type V = BehaviourPackInfoView;

    open spec fn view(&self) -> BehaviourPackInfoView {
        BehaviourPackInfoView {
            uuid: self.uuid@,
            version: self.version@,
            size: self.size,
            content_key: self.content_key@,
            subpack_name: self.subpack_name@,
            content_identity: self.content_identity@,
            has_scripts: self.has_scripts,
        }
    }
}

impl BehaviourPackInfo {
    /// The fields in declaration order.
    pub open spec fn spec_bytes(self) -> Seq<u8> {
        var_text(self.uuid@)
            + (var_text(self.version@)
            + (u64_le_bytes(self.size)
            + (var_text(self.content_key@)
            + (var_text(self.subpack_name@)
            + (var_text(self.content_identity@)
            + bool_bytes(self.has_scripts))))))
    }

    /// Every text and byte field fits its length prefix.
    pub open spec fn wf(self) -> bool {
        text_fits(self.uuid@)
        && text_fits(self.version@)
        && text_fits(self.content_key@)
        && text_fits(self.subpack_name@)
        && text_fits(self.content_identity@)
    }

    pub open spec fn parse(s: Seq<u8>, pos: nat) -> Result<(BehaviourPackInfoView, nat), Error> {
        match parse_var_text(s, pos) {
            Ok((uuid, p1)) => match parse_var_text(s, p1) {
                Ok((version, p2)) => match parse_u64_le(s, p2) {
                    Ok((size, p3)) => match parse_var_text(s, p3) {
                        Ok((content_key, p4)) => match parse_var_text(s, p4) {
                            Ok((subpack_name, p5)) => match parse_var_text(s, p5) {
                                Ok((content_identity, p6)) => match parse_bool(s, p6) {
                                    Ok((has_scripts, p7)) => Ok(
                                        (
                                            BehaviourPackInfoView {
                                                uuid,
                                                version,
                                                size,
                                                content_key,
                                                subpack_name,
                                                content_identity,
                                                has_scripts,
                                            },
                                            p7,
                                        ),
                                    ),
                                    Err(e) => Err(e),
                                },
                                Err(e) => Err(e),
                            },
                            Err(e) => Err(e),
                        },
                        Err(e) => Err(e),
                    },
                    Err(e) => Err(e),
                },
                Err(e) => Err(e),
            },
            Err(e) => Err(e),
        }
    }

    pub fn serialize(&self, out: &mut Vec<u8>)
        ensures
            final(out)@ == old(out)@ + self.spec_bytes(),
    {
        write_var_text(out, &self.uuid);
        write_var_text(out, &self.version);
        write_u64_le(out, self.size);
        write_var_text(out, &self.content_key);
        write_var_text(out, &self.subpack_name);
        write_var_text(out, &self.content_identity);
        write_bool(out, self.has_scripts);
        assert(final(out)@ =~= old(out)@ + self.spec_bytes());
    }

    pub fn deserialize(buf: &[u8], pos: usize) -> (r: Result<(Self, usize), Error>)
        ensures
            agrees_view(r, Self::parse(buf@, pos as nat), buf@.len()),
    {
        let (uuid, p1) = match read_var_text(buf, pos) {
            Ok(x) => x,
            Err(e) => return Err(e),
        };
        let (version, p2) = match read_var_text(buf, p1) {
            Ok(x) => x,
            Err(e) => return Err(e),
        };
        let (size, p3) = match read_u64_le(buf, p2) {
            Ok(x) => x,
            Err(e) => return Err(e),
        };
        let (content_key, p4) = match read_var_text(buf, p3) {
            Ok(x) => x,
            Err(e) => return Err(e),
        };
        let (subpack_name, p5) = match read_var_text(buf, p4) {
            Ok(x) => x,
            Err(e) => return Err(e),
        };
        let (content_identity, p6) = match read_var_text(buf, p5) {
            Ok(x) => x,
            Err(e) => return Err(e),
        };
        let (has_scripts, p7) = match read_bool(buf, p6) {
            Ok(x) => x,
            Err(e) => return Err(e),
        };
        Ok(
            (
                BehaviourPackInfo {
                    uuid,
                    version,
                    size,
                    content_key,
                    subpack_name,
                    content_identity,
                    has_scripts,
                },
                p7,
            ),
        )
    }

    /// Decoding the bytes of a value gives it back and consumes exactly those bytes.
    pub proof fn lemma_round_trip(self, s: Seq<u8>, pos: nat)
        requires
            self.wf(),
            holds_at(s, pos, self.spec_bytes()),
        ensures
            Self::parse(s, pos) == Ok::<(BehaviourPackInfoView, nat), Error>(
                (self@, pos + self.spec_bytes().len()),
            ),
    {
        let t7 = bool_bytes(self.has_scripts);
        let t6 = var_text(self.content_identity@) + t7;
        let t5 = var_text(self.subpack_name@) + t6;
        let t4 = var_text(self.content_key@) + t5;
        let t3 = u64_le_bytes(self.size) + t4;
        let t2 = var_text(self.version@) + t3;
        lemma_holds_at_concat(s, pos, var_text(self.uuid@), t2);
        lemma_var_text_round_trip(s, pos, self.uuid@);
        let p1 = pos + var_text(self.uuid@).len();
        lemma_holds_at_concat(s, p1, var_text(self.version@), t3);
        lemma_var_text_round_trip(s, p1, self.version@);
        let p2 = p1 + var_text(self.version@).len();
        lemma_holds_at_concat(s, p2, u64_le_bytes(self.size), t4);
        lemma_u64_le_round_trip(s, p2, self.size);
        let p3 = p2 + u64_le_bytes(self.size).len();
        lemma_holds_at_concat(s, p3, var_text(self.content_key@), t5);
        lemma_var_text_round_trip(s, p3, self.content_key@);
        let p4 = p3 + var_text(self.content_key@).len();
        lemma_holds_at_concat(s, p4, var_text(self.subpack_name@), t6);
        lemma_var_text_round_trip(s, p4, self.subpack_name@);
        let p5 = p4 + var_text(self.subpack_name@).len();
        lemma_holds_at_concat(s, p5, var_text(self.content_identity@), t7);
        lemma_var_text_round_trip(s, p5, self.content_identity@);
        let p6 = p5 + var_text(self.content_identity@).len();
        lemma_bool_round_trip(s, p6, self.has_scripts);
    }
}

impl Encode for BehaviourPackInfo {
    open spec fn encoding(&self) -> Seq<u8> {
        self.spec_bytes()
    }

    fn encode_into(&self, out: &mut Vec<u8>) {
        self.serialize(out);
    }
}

impl Codec for BehaviourPackInfo {
    open spec fn decoding(s: Seq<u8>, pos: nat) -> Result<(BehaviourPackInfoView, nat), Error> {
        BehaviourPackInfo::parse(s, pos)
    }

    open spec fn well_formed(&self) -> bool {
        self.wf()
    }

    fn decode_at(buf: &[u8], pos: usize) -> (r: Result<(Self, usize), Error>) {
        BehaviourPackInfo::deserialize(buf, pos)
    }

    proof fn lemma_codec_round_trip(&self, s: Seq<u8>, pos: nat) {
        self.lemma_round_trip(s, pos);
    }
}

/// A texture pack the server offers.
#[derive(Debug, Clone, PartialEq, Eq, Default)]
pub struct TexturePackInfo {
    pub uuid: String,
    pub version: String,
    pub size: u64,
    pub content_key: String,
    pub subpack_name: String,
    pub content_identity: String,
    pub has_scripts: bool,
    pub rtx_enabled: bool,
}

/// The value of a `TexturePackInfo`, with its text and byte fields as sequences.
pub ghost struct TexturePackInfoView {
    pub uuid: Seq<char>,
    pub version: Seq<char>,
    pub size: u64,
    pub content_key: Seq<char>,
    pub subpack_name: Seq<char>,
    pub content_identity: Seq<char>,
    pub has_scripts: bool,
    pub rtx_enabled: bool,
}

impl View for TexturePackInfo {
    type V = TexturePackInfoView;

    open spec fn view(&self) -> TexturePackInfoView {
        TexturePackInfoView {
            uuid: self.uuid@,
            version: self.version@,
            size: self.size,
            content_key: self.content_key@,
            subpack_name: self.subpack_name@,
            content_identity: self.content_identity@,
            has_scripts: self.has_scripts,
            rtx_enabled: self.rtx_enabled,
        }
    }
}

impl TexturePackInfo {
    /// The fields in declaration order.
    pub open spec fn spec_bytes(self) -> Seq<u8> {
        var_text(self.uuid@)
            + (var_text(self.version@)
            + (u64_le_bytes(self.size)
            + (var_text(self.content_key@)
            + (var_text(self.subpack_name@)
            + (var_text(self.content_identity@)
            + (bool_bytes(self.has_scripts)
            + bool_bytes(self.rtx_enabled)))))))
    }

    /// Every text and byte field fits its length prefix.
    pub open spec fn wf(self) -> bool {
        text_fits(self.uuid@)
        && text_fits(self.version@)
        && text_fits(self.content_key@)
        && text_fits(self.subpack_name@)
        && text_fits(self.content_identity@)
    }

    pub open spec fn parse(s: Seq<u8>, pos: nat) -> Result<(TexturePackInfoView, nat), Error> {
        match parse_var_text(s, pos) {
            Ok((uuid, p1)) => match parse_var_text(s, p1) {
                Ok((version, p2)) => match parse_u64_le(s, p2) {
                    Ok((size, p3)) => match parse_var_text(s, p3) {
                        Ok((content_key, p4)) => match parse_var_text(s, p4) {
                            Ok((subpack_name, p5)) => match parse_var_text(s, p5) {
                                Ok((content_identity, p6)) => match parse_bool(s, p6) {
                                    Ok((has_scripts, p7)) => match parse_bool(s, p7) {
                                        Ok((rtx_enabled, p8)) => Ok(
                                            (
                                                TexturePackInfoView {
                                                    uuid,
                                                    version,
                                                    size,
                                                    content_key,
                                                    subpack_name,
                                                    content_identity,
                                                    has_scripts,
                                                    rtx_enabled,
                                                },
                                                p8,
                                            ),
                                        ),
                                        Err(e) => Err(e),
                                    },
                                    Err(e) => Err(e),
                                },
                                Err(e) => Err(e),
                            },
                            Err(e) => Err(e),
                        },
                        Err(e) => Err(e),
                    },
                    Err(e) => Err(e),
                },
                Err(e) => Err(e),
            },
            Err(e) => Err(e),
        }
    }

    pub fn serialize(&self, out: &mut Vec<u8>)
        ensures
            final(out)@ == old(out)@ + self.spec_bytes(),
    {
        write_var_text(out, &self.uuid);
        write_var_text(out, &self.version);
        write_u64_le(out, self.size);
        write_var_text(out, &self.content_key);
        write_var_text(out, &self.subpack_name);
        write_var_text(out, &self.content_identity);
        write_bool(out, self.has_scripts);
        write_bool(out, self.rtx_enabled);
        assert(final(out)@ =~= old(out)@ + self.spec_bytes());
    }

    pub fn deserialize(buf: &[u8], pos: usize) -> (r: Result<(Self, usize), Error>)
        ensures
            agrees_view(r, Self::parse(buf@, pos as nat), buf@.len()),
    {
        let (uuid, p1) = match read_var_text(buf, pos) {
            Ok(x) => x,
            Err(e) => return Err(e),
        };
        let (version, p2) = match read_var_text(buf, p1) {
            Ok(x) => x,
            Err(e) => return Err(e),
        };
        let (size, p3) = match read_u64_le(buf, p2) {
            Ok(x) => x,
            Err(e) => return Err(e),
        };
        let (content_key, p4) = match read_var_text(buf, p3) {
            Ok(x) => x,
            Err(e) => return Err(e),
        };
        let (subpack_name, p5) = match read_var_text(buf, p4) {
            Ok(x) => x,
            Err(e) => return Err(e),
        };
        let (content_identity, p6) = match read_var_text(buf, p5) {
            Ok(x) => x,
            Err(e) => return Err(e),
        };
        let (has_scripts, p7) = match read_bool(buf, p6) {
            Ok(x) => x,
            Err(e) => return Err(e),
        };
        let (rtx_enabled, p8) = match read_bool(buf, p7) {
            Ok(x) => x,
            Err(e) => return Err(e),
        };
        Ok(
            (
                TexturePackInfo {
                    uuid,
                    version,
                    size,
                    content_key,
                    subpack_name,
                    content_identity,
                    has_scripts,
                    rtx_enabled,
                },
                p8,
            ),
        )
    }

    /// Decoding the bytes of a value gives it back and consumes exactly those bytes.
    pub proof fn lemma_round_trip(self, s: Seq<u8>, pos: nat)
        requires
            self.wf(),
            holds_at(s, pos, self.spec_bytes()),
        ensures
            Self::parse(s, pos) == Ok::<(TexturePackInfoView, nat), Error>(
                (self@, pos + self.spec_bytes().len()),
            ),
    {
        let t8 = bool_bytes(self.rtx_enabled);
        let t7 = bool_bytes(self.has_scripts) + t8;
        let t6 = var_text(self.content_identity@) + t7;
        let t5 = var_text(self.subpack_name@) + t6;
        let t4 = var_text(self.content_key@) + t5;
        let t3 = u64_le_bytes(self.size) + t4;
        let t2 = var_text(self.version@) + t3;
        lemma_holds_at_concat(s, pos, var_text(self.uuid@), t2);
        lemma_var_text_round_trip(s, pos, self.uuid@);
        let p1 = pos + var_text(self.uuid@).len();
        lemma_holds_at_concat(s, p1, var_text(self.version@), t3);
        lemma_var_text_round_trip(s, p1, self.version@);
        let p2 = p1 + var_text(self.version@).len();
        lemma_holds_at_concat(s, p2, u64_le_bytes(self.size), t4);
        lemma_u64_le_round_trip(s, p2, self.size);
        let p3 = p2 + u64_le_bytes(self.size).len();
        lemma_holds_at_concat(s, p3, var_text(self.content_key@), t5);
        lemma_var_text_round_trip(s, p3, self.content_key@);
        let p4 = p3 + var_text(self.content_key@).len();
        lemma_holds_at_concat(s, p4, var_text(self.subpack_name@), t6);
        lemma_var_text_round_trip(s, p4, self.subpack_name@);
        let p5 = p4 + var_text(self.subpack_name@).len();
        lemma_holds_at_concat(s, p5, var_text(self.content_identity@), t7);
        lemma_var_text_round_trip(s, p5, self.content_identity@);
        let p6 = p5 + var_text(self.content_identity@).len();
        lemma_holds_at_concat(s, p6, bool_bytes(self.has_scripts), t8);
        lemma_bool_round_trip(s, p6, self.has_scripts);
        let p7 = p6 + bool_bytes(self.has_scripts).len();
        lemma_bool_round_trip(s, p7, self.rtx_enabled);
    }
}

impl Encode for TexturePackInfo {
    open spec fn encoding(&self) -> Seq<u8> {
        self.spec_bytes()
    }

    fn encode_into(&self, out: &mut Vec<u8>) {
        self.serialize(out);
    }
}

impl Codec for TexturePackInfo {
    open spec fn decoding(s: Seq<u8>, pos: nat) -> Result<(TexturePackInfoView, nat), Error> {
        TexturePackInfo::parse(s, pos)
    }

    open spec fn well_formed(&self) -> bool {
        self.wf()
    }

    fn decode_at(buf: &[u8], pos: usize) -> (r: Result<(Self, usize), Error>) {
        TexturePackInfo::deserialize(buf, pos)
    }

    proof fn lemma_codec_round_trip(&self, s: Seq<u8>, pos: nat) {
        self.lemma_round_trip(s, pos);
    }
}

/// A pack in the order the client is to apply packs.
#[derive(Debug, Clone, PartialEq, Eq, Default)]
pub struct StackResourcePack {
    pub uuid: String,
    pub version: String,
    pub subpack_name: String,
}

/// The value of a `StackResourcePack`, with its text and byte fields as sequences.
pub ghost struct StackResourcePackView {
    pub uuid: Seq<char>,
    pub version: Seq<char>,
    pub subpack_name: Seq<char>,
}

impl View for StackResourcePack {
    type V = StackResourcePackView;

    open spec fn view(&self) -> StackResourcePackView {
        StackResourcePackView {
            uuid: self.uuid@,
            version: self.version@,
            subpack_name: self.subpack_name@,
        }
    }
}

impl StackResourcePack {
    /// The fields in declaration order.
    pub open spec fn spec_bytes(self) -> Seq<u8> {
        var_text(self.uuid@)
            + (var_text(self.version@)
            + var_text(self.subpack_name@))
    }

    /// Every text and byte field fits its length prefix.
    pub open spec fn wf(self) -> bool {
        text_fits(self.uuid@)
        && text_fits(self.version@)
        && text_fits(self.subpack_name@)
    }

    pub open spec fn parse(s: Seq<u8>, pos: nat) -> Result<(StackResourcePackView, nat), Error> {
        match parse_var_text(s, pos) {
            Ok((uuid, p1)) => match parse_var_text(s, p1) {
                Ok((version, p2)) => match parse_var_text(s, p2) {
                    Ok((subpack_name, p3)) => Ok(
                        (
                            StackResourcePackView {
                                uuid,
                                version,
                                subpack_name,
                            },
                            p3,
                        ),
                    ),
                    Err(e) => Err(e),
                },
                Err(e) => Err(e),
            },
            Err(e) => Err(e),
        }
    }

    pub fn serialize(&self, out: &mut Vec<u8>)
        ensures
            final(out)@ == old(out)@ + self.spec_bytes(),
    {
        write_var_text(out, &self.uuid);
        write_var_text(out, &self.version);
        write_var_text(out, &self.subpack_name);
        assert(final(out)@ =~= old(out)@ + self.spec_bytes());
    }

    pub fn deserialize(buf: &[u8], pos: usize) -> (r: Result<(Self, usize), Error>)
        ensures
            agrees_view(r, Self::parse(buf@, pos as nat), buf@.len()),
    {
        let (uuid, p1) = match read_var_text(buf, pos) {
            Ok(x) => x,
            Err(e) => return Err(e),
        };
        let (version, p2) = match read_var_text(buf, p1) {
            Ok(x) => x,
            Err(e) => return Err(e),
        };
        let (subpack_name, p3) = match read_var_text(buf, p2) {
            Ok(x) => x,
            Err(e) => return Err(e),
        };
        Ok((StackResourcePack { uuid, version, subpack_name }, p3))
    }

    /// Decoding the bytes of a value gives it back and consumes exactly those bytes.
    pub proof fn lemma_round_trip(self, s: Seq<u8>, pos: nat)
        requires
            self.wf(),
            holds_at(s, pos, self.spec_bytes()),
        ensures
            Self::parse(s, pos) == Ok::<(StackResourcePackView, nat), Error>(
                (self@, pos + self.spec_bytes().len()),
            ),
    {
        let t3 = var_text(self.subpack_name@);
        let t2 = var_text(self.version@) + t3;
        lemma_holds_at_concat(s, pos, var_text(self.uuid@), t2);
        lemma_var_text_round_trip(s, pos, self.uuid@);
        let p1 = pos + var_text(self.uuid@).len();
        lemma_holds_at_concat(s, p1, var_text(self.version@), t3);
        lemma_var_text_round_trip(s, p1, self.version@);
        let p2 = p1 + var_text(self.version@).len();
        lemma_var_text_round_trip(s, p2, self.subpack_name@);
    }
}

impl Encode for StackResourcePack {
    open spec fn encoding(&self) -> Seq<u8> {
        self.spec_bytes()
    }

    fn encode_into(&self, out: &mut Vec<u8>) {
        self.serialize(out);
    }
}

impl Codec for StackResourcePack {
    open spec fn decoding(s: Seq<u8>, pos: nat) -> Result<(StackResourcePackView, nat), Error> {
        StackResourcePack::parse(s, pos)
    }

    open spec fn well_formed(&self) -> bool {
        self.wf()
    }

    fn decode_at(buf: &[u8], pos: usize) -> (r: Result<(Self, usize), Error>) {
        StackResourcePack::deserialize(buf, pos)
    }

    proof fn lemma_codec_round_trip(&self, s: Seq<u8>, pos: nat) {
        self.lemma_round_trip(s, pos);
    }
}

/// Where a pack can be downloaded.
#[derive(Debug, Clone, PartialEq, Eq, Default)]
pub struct PackURL {
    pub uuid_version: String,
    pub url: String,
}

/// The value of a `PackURL`, with its text and byte fields as sequences.
pub ghost struct PackURLView {
    pub uuid_version: Seq<char>,
    pub url: Seq<char>,
}

impl View for PackURL {
    type V = PackURLView;

    open spec fn view(&self) -> PackURLView {
        PackURLView {
            uuid_version: self.uuid_version@,
            url: self.url@,
        }
    }
}

impl PackURL {
    /// The fields in declaration order.
    pub open spec fn spec_bytes(self) -> Seq<u8> {
        var_text(self.uuid_version@)
            + var_text(self.url@)
    }

    /// Every text and byte field fits its length prefix.
    pub open spec fn wf(self) -> bool {
        text_fits(self.uuid_version@)
        && text_fits(self.url@)
    }

    pub open spec fn parse(s: Seq<u8>, pos: nat) -> Result<(PackURLView, nat), Error> {
        match parse_var_text(s, pos) {
            Ok((uuid_version, p1)) => match parse_var_text(s, p1) {
                Ok((url, p2)) => Ok((PackURLView { uuid_version, url }, p2)),
                Err(e) => Err(e),
            },
            Err(e) => Err(e),
        }
    }

    pub fn serialize(&self, out: &mut Vec<u8>)
        ensures
            final(out)@ == old(out)@ + self.spec_bytes(),
    {
        write_var_text(out, &self.uuid_version);
        write_var_text(out, &self.url);
        assert(final(out)@ =~= old(out)@ + self.spec_bytes());
    }

    pub fn deserialize(buf: &[u8], pos: usize) -> (r: Result<(Self, usize), Error>)
        ensures
            agrees_view(r, Self::parse(buf@, pos as nat), buf@.len()),
    {
        let (uuid_version, p1) = match read_var_text(buf, pos) {
            Ok(x) => x,
            Err(e) => return Err(e),
        };
        let (url, p2) = match read_var_text(buf, p1) {
            Ok(x) => x,
            Err(e) => return Err(e),
        };
        Ok((PackURL { uuid_version, url }, p2))
    }

    /// Decoding the bytes of a value gives it back and consumes exactly those bytes.
    pub proof fn lemma_round_trip(self, s: Seq<u8>, pos: nat)
        requires
            self.wf(),
            holds_at(s, pos, self.spec_bytes()),
        ensures
            Self::parse(s, pos) == Ok::<(PackURLView, nat), Error>(
                (self@, pos + self.spec_bytes().len()),
            ),
    {
        let t2 = var_text(self.url@);
        lemma_holds_at_concat(s, pos, var_text(self.uuid_version@), t2);
        lemma_var_text_round_trip(s, pos, self.uuid_version@);
        let p1 = pos + var_text(self.uuid_version@).len();
        lemma_var_text_round_trip(s, p1, self.url@);
    }
}

impl Encode for PackURL {
    open spec fn encoding(&self) -> Seq<u8> {
        self.spec_bytes()
    }

    fn encode_into(&self, out: &mut Vec<u8>) {
        self.serialize(out);
    }
}

impl Codec for PackURL {
    open spec fn decoding(s: Seq<u8>, pos: nat) -> Result<(PackURLView, nat), Error> {
        PackURL::parse(s, pos)
    }

    open spec fn well_formed(&self) -> bool {
        self.wf()
    }

    fn decode_at(buf: &[u8], pos: usize) -> (r: Result<(Self, usize), Error>) {
        PackURL::deserialize(buf, pos)
    }

    proof fn lemma_codec_round_trip(&self, s: Seq<u8>, pos: nat) {
        self.lemma_round_trip(s, pos);
    }
}

} // verus!
