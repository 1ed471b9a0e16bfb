//! Ability layers of an entity.
use crate::error::Error;
use crate::wire::{
    Width, agrees, holds_at, i64_le_bytes, lemma_holds_at_concat, lemma_i64_le_round_trip,
    lemma_u32_le_round_trip, lemma_width_round_trip, parse_i64_le, parse_u32_le, parse_width,
    read_i64_le, read_u32_le, read_width, u32_le_bytes, width_bytes, write_i64_le, write_u32_le,
    write_width,
};
use vstd::prelude::*;

verus! {

/// The layer an ability set belongs to.
#[derive(Debug, Clone, Copy, PartialEq, Eq, Structural)]
pub enum AbilityLayerType {
    Cache,
    Base,
    Spectator,
    Commands,
    Editor,
    Invalid,
}

impl Default for AbilityLayerType {
    fn default() -> (r: Self)
        ensures
            r == AbilityLayerType::Invalid,
    {
        AbilityLayerType::Invalid
    }
}

impl AbilityLayerType {
    /// The wire integer each variant is tagged with.
    pub open spec fn spec_tag(self) -> u32 {
        match self {
            AbilityLayerType::Cache => 0,
            AbilityLayerType::Base => 1,
            AbilityLayerType::Spectator => 2,
            AbilityLayerType::Commands => 3,
            AbilityLayerType::Editor => 4,
            AbilityLayerType::Invalid => 5,
        }
    }

    /// The variant a wire integer decodes to; a tag no variant carries gives `Invalid`.
    pub open spec fn spec_from_tag(t: u32) -> Self {
        if t == 0 {
            AbilityLayerType::Cache
        } else if t == 1 {
            AbilityLayerType::Base
        } else if t == 2 {
            AbilityLayerType::Spectator
        } else if t == 3 {
            AbilityLayerType::Commands
        } else if t == 4 {
            AbilityLayerType::Editor
        } else {
            AbilityLayerType::Invalid
        }
    }

    pub open spec fn spec_bytes(self) -> Seq<u8> {
        width_bytes(Width::Le16, self.spec_tag())
    }

    pub open spec fn parse(s: Seq<u8>, pos: nat) -> Result<(Self, nat), Error> {
        match parse_width(Width::Le16, s, pos) {
            Ok((t, p)) => Ok((Self::spec_from_tag(t), p)),
            Err(e) => Err(e),
        }
    }

    pub fn tag(&self) -> (r: u32)
        ensures
            r == self.spec_tag(),
    {
        match self {
            AbilityLayerType::Cache => 0,
            AbilityLayerType::Base => 1,
            AbilityLayerType::Spectator => 2,
            AbilityLayerType::Commands => 3,
            AbilityLayerType::Editor => 4,
            AbilityLayerType::Invalid => 5,
        }
    }

    pub fn from_tag(t: u32) -> (r: Self)
        ensures
            r == Self::spec_from_tag(t),
    {
        if t == 0 {
            AbilityLayerType::Cache
        } else if t == 1 {
            AbilityLayerType::Base
        } else if t == 2 {
            AbilityLayerType::Spectator
        } else if t == 3 {
            AbilityLayerType::Commands
        } else if t == 4 {
            AbilityLayerType::Editor
        } else {
            AbilityLayerType::Invalid
        }
    }

    pub fn serialize(&self, out: &mut Vec<u8>)
        ensures
            final(out)@ == old(out)@ + self.spec_bytes(),
    {
        write_width(out, Width::Le16, self.tag());
    }

    pub fn deserialize(buf: &[u8], pos: usize) -> (r: Result<(Self, usize), Error>)
        ensures
            agrees(r, Self::parse(buf@, pos as nat), buf@.len()),
    {
        match read_width(buf, pos, Width::Le16) {
            Ok((t, p)) => Ok((Self::from_tag(t), p)),
            Err(e) => Err(e),
        }
    }

    /// Every variant's tag decodes back to that variant.
    pub proof fn lemma_tag_round_trip(self)
        ensures
            Self::spec_from_tag(self.spec_tag()) == self,
    {
    }

    /// A tag that no variant carries decodes to `Invalid`, never to an error.
    pub proof fn lemma_unknown_tag(t: u32)
        requires
            forall|e: Self| e.spec_tag() != t,
        ensures
            Self::spec_from_tag(t) == AbilityLayerType::Invalid,
    {
        if Self::spec_from_tag(t) != AbilityLayerType::Invalid {
            assert(Self::spec_from_tag(t).spec_tag() == t);
        }
    }

    /// Decoding the bytes of a variant gives it back and consumes exactly those bytes.
    pub proof fn lemma_round_trip(self, s: Seq<u8>, pos: nat)
        requires
            holds_at(s, pos, self.spec_bytes()),
        ensures
            Self::parse(s, pos) == Ok::<(Self, nat), Error>((self, pos + self.spec_bytes().len())),
    {
        lemma_width_round_trip(Width::Le16, self.spec_tag(), s, pos);
    }
}

/// The entity an ability set belongs to.
#[derive(Debug, Clone, Copy, PartialEq, Eq, Structural, Default)]
pub struct AbilityData {
    pub entity_unique_id: i64,
}

impl AbilityData {
    /// The fields in declaration order.
    pub open spec fn spec_bytes(self) -> Seq<u8> {
        i64_le_bytes(self.entity_unique_id)
    }

    pub open spec fn parse(s: Seq<u8>, pos: nat) -> Result<(AbilityData, nat), Error> {
        match parse_i64_le(s, pos) {
            Ok((entity_unique_id, p1)) => Ok((AbilityData { entity_unique_id }, p1)),
            Err(e) => Err(e),
        }
    }

    pub fn serialize(&self, out: &mut Vec<u8>)
        ensures
            final(out)@ == old(out)@ + self.spec_bytes(),
    {
        write_i64_le(out, self.entity_unique_id);
        assert(final(out)@ =~= old(out)@ + self.spec_bytes());
    }

    pub fn deserialize(buf: &[u8], pos: usize) -> (r: Result<(Self, usize), Error>)
        ensures
            agrees(r, Self::parse(buf@, pos as nat), buf@.len()),
    {
        let (entity_unique_id, p1) = match read_i64_le(buf, pos) {
            Ok(x) => x,
            Err(e) => return Err(e),
        };
        Ok((AbilityData { entity_unique_id }, p1))
    }

    /// Decoding the bytes of a value gives it back and consumes exactly those bytes.
    pub proof fn lemma_round_trip(self, s: Seq<u8>, pos: nat)
        requires
            holds_at(s, pos, self.spec_bytes()),
        ensures
            Self::parse(s, pos) == Ok::<(AbilityData, nat), Error>(
                (self, pos + self.spec_bytes().len()),
            ),
    {
        lemma_i64_le_round_trip(s, pos, self.entity_unique_id);
    }
}

/// One layer of abilities; speeds are IEEE-754 single-precision bit patterns.
#[derive(Debug, Clone, Copy, PartialEq, Eq, Structural, Default)]
pub struct AbilityLayer {
    pub layer_type: AbilityLayerType,
    pub fly_speed: u32,
    pub walk_speed: u32,
}

impl AbilityLayer {
    /// The fields in declaration order.
    pub open spec fn spec_bytes(self) -> Seq<u8> {
        self.layer_type.spec_bytes()
            + (u32_le_bytes(self.fly_speed)
            + u32_le_bytes(self.walk_speed))
    }

    pub open spec fn parse(s: Seq<u8>, pos: nat) -> Result<(AbilityLayer, nat), Error> {
        match AbilityLayerType::parse(s, pos) {
            Ok((layer_type, p1)) => match parse_u32_le(s, p1) {
                Ok((fly_speed, p2)) => match parse_u32_le(s, p2) {
                    Ok((walk_speed, p3)) => Ok(
                        (
                            AbilityLayer {
                                layer_type,
                                fly_speed,
                                walk_speed,
                            },
                            p3,
                        ),
                    ),
                    Err(e) => Err(e),
                },
                Err(e) => Err(e),
            },
            Err(e) => Err(e),
        }
    }

    pub fn serialize(&self, out: &mut Vec<u8>)
        ensures
            final(out)@ == old(out)@ + self.spec_bytes(),
    {
        self.layer_type.serialize(out);
        write_u32_le(out, self.fly_speed);
        write_u32_le(out, self.walk_speed);
        assert(final(out)@ =~= old(out)@ + self.spec_bytes());
    }

    pub fn deserialize(buf: &[u8], pos: usize) -> (r: Result<(Self, usize), Error>)
        ensures
            agrees(r, Self::parse(buf@, pos as nat), buf@.len()),
    {
        let (layer_type, p1) = match AbilityLayerType::deserialize(buf, pos) {
            Ok(x) => x,
            Err(e) => return Err(e),
        };
        let (fly_speed, p2) = match read_u32_le(buf, p1) {
            Ok(x) => x,
            Err(e) => return Err(e),
        };
        let (walk_speed, p3) = match read_u32_le(buf, p2) {
            Ok(x) => x,
            Err(e) => return Err(e),
        };
        Ok((AbilityLayer { layer_type, fly_speed, walk_speed }, p3))
    }

    /// Decoding the bytes of a value gives it back and consumes exactly those bytes.
    pub proof fn lemma_round_trip(self, s: Seq<u8>, pos: nat)
        requires
            holds_at(s, pos, self.spec_bytes()),
        ensures
            Self::parse(s, pos) == Ok::<(AbilityLayer, nat), Error>(
                (self, pos + self.spec_bytes().len()),
            ),
    {
        let t3 = u32_le_bytes(self.walk_speed);
        let t2 = u32_le_bytes(self.fly_speed) + t3;
        lemma_holds_at_concat(s, pos, self.layer_type.spec_bytes(), t2);
        self.layer_type.lemma_round_trip(s, pos);
        let p1 = pos + self.layer_type.spec_bytes().len();
        lemma_holds_at_concat(s, p1, u32_le_bytes(self.fly_speed), t3);
        lemma_u32_le_round_trip(s, p1, self.fly_speed);
        let p2 = p1 + u32_le_bytes(self.fly_speed).len();
        lemma_u32_le_round_trip(s, p2, self.walk_speed);
    }
}

} // verus!
