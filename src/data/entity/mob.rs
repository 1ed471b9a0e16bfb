//! Mob effects.
use crate::error::Error;
use crate::wire::{
    Width, agrees, holds_at, lemma_width_round_trip, parse_width, read_width, width_bytes,
    write_width,
};
use vstd::prelude::*;

verus! {

/// What a mob effect packet does to the effect.
#[derive(Debug, Clone, Copy, PartialEq, Eq, Structural)]
pub enum MobEffectOperation {
    Add,
    Modify,
    Remove,
    Invalid,
}

impl Default for MobEffectOperation {
    fn default() -> (r: Self)
        ensures
            r == MobEffectOperation::Invalid,
    {
        MobEffectOperation::Invalid
    }
}

impl MobEffectOperation {
    /// The wire integer each variant is tagged with.
    pub open spec fn spec_tag(self) -> u32 {
        match self {
            MobEffectOperation::Add => 1,
            MobEffectOperation::Modify => 2,
            MobEffectOperation::Remove => 3,
            MobEffectOperation::Invalid => 4,
        }
    }

    /// The variant a wire integer decodes to; a tag no variant carries gives `Invalid`.
    pub open spec fn spec_from_tag(t: u32) -> Self {
        if t == 1 {
            MobEffectOperation::Add
        } else if t == 2 {
            MobEffectOperation::Modify
        } else if t == 3 {
            MobEffectOperation::Remove
        } else {
            MobEffectOperation::Invalid
        }
    }

    pub open spec fn spec_bytes(self) -> Seq<u8> {
        width_bytes(Width::Byte, self.spec_tag())
    }

    pub open spec fn parse(s: Seq<u8>, pos: nat) -> Result<(Self, nat), Error> {
        match parse_width(Width::Byte, s, pos) {
            Ok((t, p)) => Ok((Self::spec_from_tag(t), p)),
            Err(e) => Err(e),
        }
    }

    pub fn tag(&self) -> (r: u32)
        ensures
            r == self.spec_tag(),
    {
        match self {
            MobEffectOperation::Add => 1,
            MobEffectOperation::Modify => 2,
            MobEffectOperation::Remove => 3,
            MobEffectOperation::Invalid => 4,
        }
    }

    pub fn from_tag(t: u32) -> (r: Self)
        ensures
            r == Self::spec_from_tag(t),
    {
        if t == 1 {
            MobEffectOperation::Add
        } else if t == 2 {
            MobEffectOperation::Modify
        } else if t == 3 {
            MobEffectOperation::Remove
        } else {
            MobEffectOperation::Invalid
        }
    }

    pub fn serialize(&self, out: &mut Vec<u8>)
        ensures
            final(out)@ == old(out)@ + self.spec_bytes(),
    {
        write_width(out, Width::Byte, self.tag());
    }

    pub fn deserialize(buf: &[u8], pos: usize) -> (r: Result<(Self, usize), Error>)
        ensures
            agrees(r, Self::parse(buf@, pos as nat), buf@.len()),
    {
        match read_width(buf, pos, Width::Byte) {
            Ok((t, p)) => Ok((Self::from_tag(t), p)),
            Err(e) => Err(e),
        }
    }

    /// Every variant's tag decodes back to that variant.
    pub proof fn lemma_tag_round_trip(self)
        ensures
            Self::spec_from_tag(self.spec_tag()) == self,
    {
    }

    /// A tag that no variant carries decodes to `Invalid`, never to an error.
    pub proof fn lemma_unknown_tag(t: u32)
        requires
            forall|e: Self| e.spec_tag() != t,
        ensures
            Self::spec_from_tag(t) == MobEffectOperation::Invalid,
    {
        if Self::spec_from_tag(t) != MobEffectOperation::Invalid {
            assert(Self::spec_from_tag(t).spec_tag() == t);
        }
    }

    /// Decoding the bytes of a variant gives it back and consumes exactly those bytes.
    pub proof fn lemma_round_trip(self, s: Seq<u8>, pos: nat)
        requires
            holds_at(s, pos, self.spec_bytes()),
        ensures
            Self::parse(s, pos) == Ok::<(Self, nat), Error>((self, pos + self.spec_bytes().len())),
    {
        lemma_width_round_trip(Width::Byte, self.spec_tag(), s, pos);
    }
}

/// The kind of a mob effect.
#[derive(Debug, Clone, Copy, PartialEq, Eq, Structural)]
pub enum MobEffectType {
    Speed,
    Slowness,
    Haste,
    MiningFatigue,
    Strength,
    InstantHealth,
    InstantDamage,
    JumpBoost,
    Nausea,
    Regeneration,
    Resistance,
    FireResistance,
    WaterBreathing,
    Invisibility,
    Blindness,
    NightVision,
    Hunger,
    Weakness,
    Poison,
    Wither,
    HealthBoost,
    Absorption,
    Saturation,
    Levitation,
    FatalPoison,
    ConduitPower,
    SlowFalling,
    Invalid,
}

impl Default for MobEffectType {
    fn default() -> (r: Self)
        ensures
            r == MobEffectType::Invalid,
    {
        MobEffectType::Invalid
    }
}

impl MobEffectType {
    /// The wire integer each variant is tagged with.
    pub open spec fn spec_tag(self) -> u32 {
        match self {
            MobEffectType::Speed => 1,
            MobEffectType::Slowness => 2,
            MobEffectType::Haste => 3,
            MobEffectType::MiningFatigue => 4,
            MobEffectType::Strength => 5,
            MobEffectType::InstantHealth => 6,
            MobEffectType::InstantDamage => 7,
            MobEffectType::JumpBoost => 8,
            MobEffectType::Nausea => 9,
            MobEffectType::Regeneration => 10,
            MobEffectType::Resistance => 11,
            MobEffectType::FireResistance => 12,
            MobEffectType::WaterBreathing => 13,
            MobEffectType::Invisibility => 14,
            MobEffectType::Blindness => 15,
            MobEffectType::NightVision => 16,
            MobEffectType::Hunger => 17,
            MobEffectType::Weakness => 18,
            MobEffectType::Poison => 19,
            MobEffectType::Wither => 20,
            MobEffectType::HealthBoost => 21,
            MobEffectType::Absorption => 22,
            MobEffectType::Saturation => 23,
            MobEffectType::Levitation => 24,
            MobEffectType::FatalPoison => 25,
            MobEffectType::ConduitPower => 26,
            MobEffectType::SlowFalling => 27,
            MobEffectType::Invalid => 28,
        }
    }

    /// The variant a wire integer decodes to; a tag no variant carries gives `Invalid`.
    pub open spec fn spec_from_tag(t: u32) -> Self {
        if t == 1 {
            MobEffectType::Speed
        } else if t == 2 {
            MobEffectType::Slowness
        } else if t == 3 {
            MobEffectType::Haste
        } else if t == 4 {
            MobEffectType::MiningFatigue
        } else if t == 5 {
            MobEffectType::Strength
        } else if t == 6 {
            MobEffectType::InstantHealth
        } else if t == 7 {
            MobEffectType::InstantDamage
        } else if t == 8 {
            MobEffectType::JumpBoost
        } else if t == 9 {
            MobEffectType::Nausea
        } else if t == 10 {
            MobEffectType::Regeneration
        } else if t == 11 {
            MobEffectType::Resistance
        } else if t == 12 {
            MobEffectType::FireResistance
        } else if t == 13 {
            MobEffectType::WaterBreathing
        } else if t == 14 {
            MobEffectType::Invisibility
        } else if t == 15 {
            MobEffectType::Blindness
        } else if t == 16 {
            MobEffectType::NightVision
        } else if t == 17 {
            MobEffectType::Hunger
        } else if t == 18 {
            MobEffectType::Weakness
        } else if t == 19 {
            MobEffectType::Poison
        } else if t == 20 {
            MobEffectType::Wither
        } else if t == 21 {
            MobEffectType::HealthBoost
        } else if t == 22 {
            MobEffectType::Absorption
        } else if t == 23 {
            MobEffectType::Saturation
        } else if t == 24 {
            MobEffectType::Levitation
        } else if t == 25 {
            MobEffectType::FatalPoison
        } else if t == 26 {
            MobEffectType::ConduitPower
        } else if t == 27 {
            MobEffectType::SlowFalling
        } else {
            MobEffectType::Invalid
        }
    }

    pub open spec fn spec_bytes(self) -> Seq<u8> {
        width_bytes(Width::Var, self.spec_tag())
    }

    pub open spec fn parse(s: Seq<u8>, pos: nat) -> Result<(Self, nat), Error> {
        match parse_width(Width::Var, s, pos) {
            Ok((t, p)) => Ok((Self::spec_from_tag(t), p)),
            Err(e) => Err(e),
        }
    }

    pub fn tag(&self) -> (r: u32)
        ensures
            r == self.spec_tag(),
    {
        match self {
            MobEffectType::Speed => 1,
            MobEffectType::Slowness => 2,
            MobEffectType::Haste => 3,
            MobEffectType::MiningFatigue => 4,
            MobEffectType::Strength => 5,
            MobEffectType::InstantHealth => 6,
            MobEffectType::InstantDamage => 7,
            MobEffectType::JumpBoost => 8,
            MobEffectType::Nausea => 9,
            MobEffectType::Regeneration => 10,
            MobEffectType::Resistance => 11,
            MobEffectType::FireResistance => 12,
            MobEffectType::WaterBreathing => 13,
            MobEffectType::Invisibility => 14,
            MobEffectType::Blindness => 15,
            MobEffectType::NightVision => 16,
            MobEffectType::Hunger => 17,
            MobEffectType::Weakness => 18,
            MobEffectType::Poison => 19,
            MobEffectType::Wither => 20,
            MobEffectType::HealthBoost => 21,
            MobEffectType::Absorption => 22,
            MobEffectType::Saturation => 23,
            MobEffectType::Levitation => 24,
            MobEffectType::FatalPoison => 25,
            MobEffectType::ConduitPower => 26,
            MobEffectType::SlowFalling => 27,
            MobEffectType::Invalid => 28,
        }
    }

    pub fn from_tag(t: u32) -> (r: Self)
        ensures
            r == Self::spec_from_tag(t),
    {
        if t == 1 {
            MobEffectType::Speed
        } else if t == 2 {
            MobEffectType::Slowness
        } else if t == 3 {
            MobEffectType::Haste
        } else if t == 4 {
            MobEffectType::MiningFatigue
        } else if t == 5 {
            MobEffectType::Strength
        } else if t == 6 {
            MobEffectType::InstantHealth
        } else if t == 7 {
            MobEffectType::InstantDamage
        } else if t == 8 {
            MobEffectType::JumpBoost
        } else if t == 9 {
            MobEffectType::Nausea
        } else if t == 10 {
            MobEffectType::Regeneration
        } else if t == 11 {
            MobEffectType::Resistance
        } else if t == 12 {
            MobEffectType::FireResistance
        } else if t == 13 {
            MobEffectType::WaterBreathing
        } else if t == 14 {
            MobEffectType::Invisibility
        } else if t == 15 {
            MobEffectType::Blindness
        } else if t == 16 {
            MobEffectType::NightVision
        } else if t == 17 {
            MobEffectType::Hunger
        } else if t == 18 {
            MobEffectType::Weakness
        } else if t == 19 {
            MobEffectType::Poison
        } else if t == 20 {
            MobEffectType::Wither
        } else if t == 21 {
            MobEffectType::HealthBoost
        } else if t == 22 {
            MobEffectType::Absorption
        } else if t == 23 {
            MobEffectType::Saturation
        } else if t == 24 {
            MobEffectType::Levitation
        } else if t == 25 {
            MobEffectType::FatalPoison
        } else if t == 26 {
            MobEffectType::ConduitPower
        } else if t == 27 {
            MobEffectType::SlowFalling
        } else {
            MobEffectType::Invalid
        }
    }

    pub fn serialize(&self, out: &mut Vec<u8>)
        ensures
            final(out)@ == old(out)@ + self.spec_bytes(),
    {
        write_width(out, Width::Var, self.tag());
    }

    pub fn deserialize(buf: &[u8], pos: usize) -> (r: Result<(Self, usize), Error>)
        ensures
            agrees(r, Self::parse(buf@, pos as nat), buf@.len()),
    {
        match read_width(buf, pos, Width::Var) {
            Ok((t, p)) => Ok((Self::from_tag(t), p)),
            Err(e) => Err(e),
        }
    }

    /// Every variant's tag decodes back to that variant.
    pub proof fn lemma_tag_round_trip(self)
        ensures
            Self::spec_from_tag(self.spec_tag()) == self,
    {
    }

    /// A tag that no variant carries decodes to `Invalid`, never to an error.
    pub proof fn lemma_unknown_tag(t: u32)
        requires
            forall|e: Self| e.spec_tag() != t,
        ensures
            Self::spec_from_tag(t) == MobEffectType::Invalid,
    {
        if Self::spec_from_tag(t) != MobEffectType::Invalid {
            assert(Self::spec_from_tag(t).spec_tag() == t);
        }
    }

    /// Decoding the bytes of a variant gives it back and consumes exactly those bytes.
    pub proof fn lemma_round_trip(self, s: Seq<u8>, pos: nat)
        requires
            holds_at(s, pos, self.spec_bytes()),
        ensures
            Self::parse(s, pos) == Ok::<(Self, nat), Error>((self, pos + self.spec_bytes().len())),
    {
        lemma_width_round_trip(Width::Var, self.spec_tag(), s, pos);
    }
}

} // verus!
