//! Entity attribute modifiers.
use crate::error::Error;
use crate::wire::{
    Codec, Encode, Width, agrees, agrees_view, bool_bytes, counted_items, counted_items_fit,
    holds_at, items_view, lemma_bool_round_trip, lemma_counted_items_round_trip,
    lemma_holds_at_concat, lemma_u32_le_round_trip, lemma_var_text_round_trip,
    lemma_width_round_trip, parse_bool, parse_counted_items, parse_u32_le, parse_var_text,
    parse_width, read_bool, read_counted_items, read_u32_le, read_var_text, read_width, text_fits,
    u32_le_bytes, var_text, width_bytes, write_bool, write_counted_items, write_u32_le,
    write_var_text, write_width,
};
use vstd::prelude::*;

verus! {

/// How an attribute modifier combines with the attribute.
#[derive(Debug, Clone, Copy, PartialEq, Eq, Structural)]
pub enum AttributeOperation {
    Add,
    MultiplyBase,
    MultiplyTotal,
    Cap,
    Invalid,
}

impl Default for AttributeOperation {
    fn default() -> (r: Self)
        ensures
            r == AttributeOperation::Invalid,
    {
        AttributeOperation::Invalid
    }
}

impl AttributeOperation {
    /// The wire integer each variant is tagged with.
    pub open spec fn spec_tag(self) -> u32 {
        match self {
            AttributeOperation::Add => 0,
            AttributeOperation::MultiplyBase => 1,
            AttributeOperation::MultiplyTotal => 2,
            AttributeOperation::Cap => 3,
            AttributeOperation::Invalid => 4,
        }
    }

    /// The variant a wire integer decodes to; a tag no variant carries gives `Invalid`.
    pub open spec fn spec_from_tag(t: u32) -> Self {
        if t == 0 {
            AttributeOperation::Add
        } else if t == 1 {
            AttributeOperation::MultiplyBase
        } else if t == 2 {
            AttributeOperation::MultiplyTotal
        } else if t == 3 {
            AttributeOperation::Cap
        } else {
            AttributeOperation::Invalid
        }
    }

    pub open spec fn spec_bytes(self) -> Seq<u8> {
        width_bytes(Width::Le32, self.spec_tag())
    }

    pub open spec fn parse(s: Seq<u8>, pos: nat) -> Result<(Self, nat), Error> {
        match parse_width(Width::Le32, s, pos) {
            Ok((t, p)) => Ok((Self::spec_from_tag(t), p)),
            Err(e) => Err(e),
        }
    }

    pub fn tag(&self) -> (r: u32)
        ensures
            r == self.spec_tag(),
    {
        match self {
            AttributeOperation::Add => 0,
            AttributeOperation::MultiplyBase => 1,
            AttributeOperation::MultiplyTotal => 2,
            AttributeOperation::Cap => 3,
            AttributeOperation::Invalid => 4,
        }
    }

    pub fn from_tag(t: u32) -> (r: Self)
        ensures
            r == Self::spec_from_tag(t),
    {
        if t == 0 {
            AttributeOperation::Add
        } else if t == 1 {
            AttributeOperation::MultiplyBase
        } else if t == 2 {
            AttributeOperation::MultiplyTotal
        } else if t == 3 {
            AttributeOperation::Cap
        } else {
            AttributeOperation::Invalid
        }
    }

    pub fn serialize(&self, out: &mut Vec<u8>)
        ensures
            final(out)@ == old(out)@ + self.spec_bytes(),
    {
        write_width(out, Width::Le32, self.tag());
    }

    pub fn deserialize(buf: &[u8], pos: usize) -> (r: Result<(Self, usize), Error>)
        ensures
            agrees(r, Self::parse(buf@, pos as nat), buf@.len()),
    {
        match read_width(buf, pos, Width::Le32) {
            Ok((t, p)) => Ok((Self::from_tag(t), p)),
            Err(e) => Err(e),
        }
    }

    /// Every variant's tag decodes back to that variant.
    pub proof fn lemma_tag_round_trip(self)
        ensures
            Self::spec_from_tag(self.spec_tag()) == self,
    {
    }

    /// A tag that no variant carries decodes to `Invalid`, never to an error.
    pub proof fn lemma_unknown_tag(t: u32)
        requires
            forall|e: Self| e.spec_tag() != t,
        ensures
            Self::spec_from_tag(t) == AttributeOperation::Invalid,
    {
        if Self::spec_from_tag(t) != AttributeOperation::Invalid {
            assert(Self::spec_from_tag(t).spec_tag() == t);
        }
    }

    /// Decoding the bytes of a variant gives it back and consumes exactly those bytes.
    pub proof fn lemma_round_trip(self, s: Seq<u8>, pos: nat)
        requires
            holds_at(s, pos, self.spec_bytes()),
        ensures
            Self::parse(s, pos) == Ok::<(Self, nat), Error>((self, pos + self.spec_bytes().len())),
    {
        lemma_width_round_trip(Width::Le32, self.spec_tag(), s, pos);
    }
}

/// Which bound of an attribute a modifier acts on.
#[derive(Debug, Clone, Copy, PartialEq, Eq, Structural)]
pub enum AttributeTargetOperand {
    Min,
    Max,
    Current,
    Invalid,
}

impl Default for AttributeTargetOperand {
    fn default() -> (r: Self)
        ensures
            r == AttributeTargetOperand::Invalid,
    {
        AttributeTargetOperand::Invalid
    }
}

impl AttributeTargetOperand {
    /// The wire integer each variant is tagged with.
    pub open spec fn spec_tag(self) -> u32 {
        match self {
            AttributeTargetOperand::Min => 0,
            AttributeTargetOperand::Max => 1,
            AttributeTargetOperand::Current => 2,
            AttributeTargetOperand::Invalid => 3,
        }
    }

    /// The variant a wire integer decodes to; a tag no variant carries gives `Invalid`.
    pub open spec fn spec_from_tag(t: u32) -> Self {
        if t == 0 {
            AttributeTargetOperand::Min
        } else if t == 1 {
            AttributeTargetOperand::Max
        } else if t == 2 {
            AttributeTargetOperand::Current
        } else {
            AttributeTargetOperand::Invalid
        }
    }

    pub open spec fn spec_bytes(self) -> Seq<u8> {
        width_bytes(Width::Le32, self.spec_tag())
    }

    pub open spec fn parse(s: Seq<u8>, pos: nat) -> Result<(Self, nat), Error> {
        match parse_width(Width::Le32, s, pos) {
            Ok((t, p)) => Ok((Self::spec_from_tag(t), p)),
            Err(e) => Err(e),
        }
    }

    pub fn tag(&self) -> (r: u32)
        ensures
            r == self.spec_tag(),
    {
        match self {
            AttributeTargetOperand::Min => 0,
            AttributeTargetOperand::Max => 1,
            AttributeTargetOperand::Current => 2,
            AttributeTargetOperand::Invalid => 3,
        }
    }

    pub fn from_tag(t: u32) -> (r: Self)
        ensures
            r == Self::spec_from_tag(t),
    {
        if t == 0 {
            AttributeTargetOperand::Min
        } else if t == 1 {
            AttributeTargetOperand::Max
        } else if t == 2 {
            AttributeTargetOperand::Current
        } else {
            AttributeTargetOperand::Invalid
        }
    }

    pub fn serialize(&self, out: &mut Vec<u8>)
        ensures
            final(out)@ == old(out)@ + self.spec_bytes(),
    {
        write_width(out, Width::Le32, self.tag());
    }

    pub fn deserialize(buf: &[u8], pos: usize) -> (r: Result<(Self, usize), Error>)
        ensures
            agrees(r, Self::parse(buf@, pos as nat), buf@.len()),
    {
        match read_width(buf, pos, Width::Le32) {
            Ok((t, p)) => Ok((Self::from_tag(t), p)),
            Err(e) => Err(e),
        }
    }

    /// Every variant's tag decodes back to that variant.
    pub proof fn lemma_tag_round_trip(self)
        ensures
            Self::spec_from_tag(self.spec_tag()) == self,
    {
    }

    /// A tag that no variant carries decodes to `Invalid`, never to an error.
    pub proof fn lemma_unknown_tag(t: u32)
        requires
            forall|e: Self| e.spec_tag() != t,
        ensures
            Self::spec_from_tag(t) == AttributeTargetOperand::Invalid,
    {
        if Self::spec_from_tag(t) != AttributeTargetOperand::Invalid {
            assert(Self::spec_from_tag(t).spec_tag() == t);
        }
    }

    /// Decoding the bytes of a variant gives it back and consumes exactly those bytes.
    pub proof fn lemma_round_trip(self, s: Seq<u8>, pos: nat)
        requires
            holds_at(s, pos, self.spec_bytes()),
        ensures
            Self::parse(s, pos) == Ok::<(Self, nat), Error>((self, pos + self.spec_bytes().len())),
    {
        lemma_width_round_trip(Width::Le32, self.spec_tag(), s, pos);
    }
}

/// A modifier of an entity attribute; the amount is an IEEE-754 single-precision bit pattern.
#[derive(Debug, Clone, PartialEq, Eq, Default)]
pub struct AttributeModifier {
    pub id: String,
    pub name: String,
    pub amound: u32,
    pub operation: AttributeOperation,
    pub operand: AttributeTargetOperand,
    pub serializable: bool,
}

/// The value of a `AttributeModifier`, with its text and byte fields as sequences.
pub ghost struct AttributeModifierView {
    pub id: Seq<char>,
    pub name: Seq<char>,
    pub amound: u32,
    pub operation: AttributeOperation,
    pub operand: AttributeTargetOperand,
    pub serializable: bool,
}

impl View for AttributeModifier {
    type V = AttributeModifierView;

    open spec fn view(&self) -> AttributeModifierView {
        AttributeModifierView {
            id: self.id@,
            name: self.name@,
            amound: self.amound,
            operation: self.operation,
            operand: self.operand,
            serializable: self.serializable,
        }
    }
}

impl AttributeModifier {
    /// The fields in declaration order.
    pub open spec fn spec_bytes(self) -> Seq<u8> {
        var_text(self.id@)
            + (var_text(self.name@)
            + (u32_le_bytes(self.amound)
            + (self.operation.spec_bytes()
            + (self.operand.spec_bytes()
            + bool_bytes(self.serializable)))))
    }

    /// Every text and byte field fits its length prefix.
    pub open spec fn wf(self) -> bool {
        text_fits(self.id@)
        && text_fits(self.name@)
    }

    pub open spec fn parse(s: Seq<u8>, pos: nat) -> Result<(AttributeModifierView, nat), Error> {
        match parse_var_text(s, pos) {
            Ok((id, p1)) => match parse_var_text(s, p1) {
                Ok((name, p2)) => match parse_u32_le(s, p2) {
                    Ok((amound, p3)) => match AttributeOperation::parse(s, p3) {
                        Ok((operation, p4)) => match AttributeTargetOperand::parse(s, p4) {
                            Ok((operand, p5)) => match parse_bool(s, p5) {
                                Ok((serializable, p6)) => Ok(
                                    (
                                        AttributeModifierView {
                                            id,
                                            name,
                                            amound,
                                            operation,
                                            operand,
                                            serializable,
                                        },
                                        p6,
                                    ),
                                ),
                                Err(e) => Err(e),
                            },
                            Err(e) => Err(e),
                        },
                        Err(e) => Err(e),
                    },
                    Err(e) => Err(e),
                },
                Err(e) => Err(e),
            },
            Err(e) => Err(e),
        }
    }

    pub fn serialize(&self, out: &mut Vec<u8>)
        ensures
            final(out)@ == old(out)@ + self.spec_bytes(),
    {
        write_var_text(out, &self.id);
        write_var_text(out, &self.name);
        write_u32_le(out, self.amound);
        self.operation.serialize(out);
        self.operand.serialize(out);
        write_bool(out, self.serializable);
        assert(final(out)@ =~= old(out)@ + self.spec_bytes());
    }

    pub fn deserialize(buf: &[u8], pos: usize) -> (r: Result<(Self, usize), Error>)
        ensures
            agrees_view(r, Self::parse(buf@, pos as nat), buf@.len()),
    {
        let (id, p1) = match read_var_text(buf, pos) {
            Ok(x) => x,
            Err(e) => return Err(e),
        };
        let (name, p2) = match read_var_text(buf, p1) {
            Ok(x) => x,
            Err(e) => return Err(e),
        };
        let (amound, p3) = match read_u32_le(buf, p2) {
            Ok(x) => x,
            Err(e) => return Err(e),
        };
        let (operation, p4) = match AttributeOperation::deserialize(buf, p3) {
            Ok(x) => x,
            Err(e) => return Err(e),
        };
        let (operand, p5) = match AttributeTargetOperand::deserialize(buf, p4) {
            Ok(x) => x,
            Err(e) => return Err(e),
        };
        let (serializable, p6) = match read_bool(buf, p5) {
            Ok(x) => x,
            Err(e) => return Err(e),
        };
        Ok((AttributeModifier { id, name, amound, operation, operand, serializable }, p6))
    }

    /// Decoding the bytes of a value gives it back and consumes exactly those bytes.
    pub proof fn lemma_round_trip(self, s: Seq<u8>, pos: nat)
        requires
            self.wf(),
            holds_at(s, pos, self.spec_bytes()),
        ensures
            Self::parse(s, pos) == Ok::<(AttributeModifierView, nat), Error>(
                (self@, pos + self.spec_bytes().len()),
            ),
    {
        let t6 = bool_bytes(self.serializable);
        let t5 = self.operand.spec_bytes() + t6;
        let t4 = self.operation.spec_bytes() + t5;
        let t3 = u32_le_bytes(self.amound) + t4;
        let t2 = var_text(self.name@) + t3;
        lemma_holds_at_concat(s, pos, var_text(self.id@), t2);
        lemma_var_text_round_trip(s, pos, self.id@);
        let p1 = pos + var_text(self.id@).len();
        lemma_holds_at_concat(s, p1, var_text(self.name@), t3);
        lemma_var_text_round_trip(s, p1, self.name@);
        let p2 = p1 + var_text(self.name@).len();
        lemma_holds_at_concat(s, p2, u32_le_bytes(self.amound), t4);
        lemma_u32_le_round_trip(s, p2, self.amound);
        let p3 = p2 + u32_le_bytes(self.amound).len();
        lemma_holds_at_concat(s, p3, self.operation.spec_bytes(), t5);
        self.operation.lemma_round_trip(s, p3);
        let p4 = p3 + self.operation.spec_bytes().len();
        lemma_holds_at_concat(s, p4, self.operand.spec_bytes(), t6);
        self.operand.lemma_round_trip(s, p4);
        let p5 = p4 + self.operand.spec_bytes().len();
        lemma_bool_round_trip(s, p5, self.serializable);
    }
}

impl Encode for AttributeModifier {
    open spec fn encoding(&self) -> Seq<u8> {
        self.spec_bytes()
    }

    fn encode_into(&self, out: &mut Vec<u8>) {
        self.serialize(out);
    }
}

impl Codec for AttributeModifier {
    open spec fn decoding(s: Seq<u8>, pos: nat) -> Result<(AttributeModifierView, nat), Error> {
        AttributeModifier::parse(s, pos)
    }

    open spec fn well_formed(&self) -> bool {
        self.wf()
    }

    fn decode_at(buf: &[u8], pos: usize) -> (r: Result<(Self, usize), Error>) {
        AttributeModifier::deserialize(buf, pos)
    }

    proof fn lemma_codec_round_trip(&self, s: Seq<u8>, pos: nat) {
        self.lemma_round_trip(s, pos);
    }
}

/// An entity attribute; its bounds and values are IEEE-754 single-precision bit patterns.
#[derive(Debug, Clone, PartialEq, Eq, Default)]
pub struct Attribute {
    pub min: u32,
    pub max: u32,
    pub current: u32,
    pub default: u32,
    pub id: String,
    pub modifiers: Vec<AttributeModifier>,
}

/// The value of a `Attribute`, with its text and byte fields as sequences.
pub ghost struct AttributeView {
    pub min: u32,
    pub max: u32,
    pub current: u32,
    pub default: u32,
    pub id: Seq<char>,
    pub modifiers: Seq<AttributeModifierView>,
}

impl View for Attribute {
    type V = AttributeView;

    open spec fn view(&self) -> AttributeView {
        AttributeView {
            min: self.min,
            max: self.max,
            current: self.current,
            default: self.default,
            id: self.id@,
            modifiers: items_view(self.modifiers@),
        }
    }
}

impl Attribute {
    /// The fields in declaration order.
    pub open spec fn spec_bytes(self) -> Seq<u8> {
        u32_le_bytes(self.min)
            + (u32_le_bytes(self.max)
            + (u32_le_bytes(self.current)
            + (u32_le_bytes(self.default)
            + (var_text(self.id@)
            + counted_items(Width::Var, self.modifiers@)))))
    }

    /// Every text and byte field fits its length prefix.
    pub open spec fn wf(self) -> bool {
        text_fits(self.id@)
        && counted_items_fit(Width::Var, self.modifiers@)
    }

    pub open spec fn parse(s: Seq<u8>, pos: nat) -> Result<(AttributeView, nat), Error> {
        match parse_u32_le(s, pos) {
            Ok((min, p1)) => match parse_u32_le(s, p1) {
                Ok((max, p2)) => match parse_u32_le(s, p2) {
                    Ok((current, p3)) => match parse_u32_le(s, p3) {
                        Ok((default, p4)) => match parse_var_text(s, p4) {
                            Ok((id, p5)) => match parse_counted_items::<AttributeModifier>(Width::Var, s, p5) {
                                Ok((modifiers, p6)) => Ok(
                                    (
                                        AttributeView {
                                            min,
                                            max,
                                            current,
                                            default,
                                            id,
                                            modifiers,
                                        },
                                        p6,
                                    ),
                                ),
                                Err(e) => Err(e),
                            },
                            Err(e) => Err(e),
                        },
                        Err(e) => Err(e),
                    },
                    Err(e) => Err(e),
                },
                Err(e) => Err(e),
            },
            Err(e) => Err(e),
        }
    }

    pub fn serialize(&self, out: &mut Vec<u8>)
        ensures
            final(out)@ == old(out)@ + self.spec_bytes(),
    {
        write_u32_le(out, self.min);
        write_u32_le(out, self.max);
        write_u32_le(out, self.current);
        write_u32_le(out, self.default);
        write_var_text(out, &self.id);
        write_counted_items(out, Width::Var, &self.modifiers);
        assert(final(out)@ =~= old(out)@ + self.spec_bytes());
    }

    pub fn deserialize(buf: &[u8], pos: usize) -> (r: Result<(Self, usize), Error>)
        ensures
            agrees_view(r, Self::parse(buf@, pos as nat), buf@.len()),
    {
        let (min, p1) = match read_u32_le(buf, pos) {
            Ok(x) => x,
            Err(e) => return Err(e),
        };
        let (max, p2) = match read_u32_le(buf, p1) {
            Ok(x) => x,
            Err(e) => return Err(e),
        };
        let (current, p3) = match read_u32_le(buf, p2) {
            Ok(x) => x,
            Err(e) => return Err(e),
        };
        let (default, p4) = match read_u32_le(buf, p3) {
            Ok(x) => x,
            Err(e) => return Err(e),
        };
        let (id, p5) = match read_var_text(buf, p4) {
            Ok(x) => x,
            Err(e) => return Err(e),
        };
        let (modifiers, p6) = match read_counted_items::<AttributeModifier>(buf, p5, Width::Var) {
            Ok(x) => x,
            Err(e) => return Err(e),
        };
        Ok((Attribute { min, max, current, default, id, modifiers }, p6))
    }

    /// Decoding the bytes of a value gives it back and consumes exactly those bytes.
    #[verifier::rlimit(60)]
    pub proof fn lemma_round_trip(self, s: Seq<u8>, pos: nat)
        requires
            self.wf(),
            holds_at(s, pos, self.spec_bytes()),
        ensures
            Self::parse(s, pos) == Ok::<(AttributeView, nat), Error>(
                (self@, pos + self.spec_bytes().len()),
            ),
    {
        let t6 = counted_items(Width::Var, self.modifiers@);
        let t5 = var_text(self.id@) + t6;
        let t4 = u32_le_bytes(self.default) + t5;
        let t3 = u32_le_bytes(self.current) + t4;
        let t2 = u32_le_bytes(self.max) + t3;
        lemma_holds_at_concat(s, pos, u32_le_bytes(self.min), t2);
        lemma_u32_le_round_trip(s, pos, self.min);
        let p1 = pos + u32_le_bytes(self.min).len();
        lemma_holds_at_concat(s, p1, u32_le_bytes(self.max), t3);
        lemma_u32_le_round_trip(s, p1, self.max);
        let p2 = p1 + u32_le_bytes(self.max).len();
        lemma_holds_at_concat(s, p2, u32_le_bytes(self.current), t4);
        lemma_u32_le_round_trip(s, p2, self.current);
        let p3 = p2 + u32_le_bytes(self.current).len();
        lemma_holds_at_concat(s, p3, u32_le_bytes(self.default), t5);
        lemma_u32_le_round_trip(s, p3, self.default);
        let p4 = p3 + u32_le_bytes(self.default).len();
        lemma_holds_at_concat(s, p4, var_text(self.id@), t6);
        lemma_var_text_round_trip(s, p4, self.id@);
        let p5 = p4 + var_text(self.id@).len();
        lemma_counted_items_round_trip::<AttributeModifier>(Width::Var, s, p5, self.modifiers@);
    }
}

impl Encode for Attribute {
    open spec fn encoding(&self) -> Seq<u8> {
        self.spec_bytes()
    }

    fn encode_into(&self, out: &mut Vec<u8>) {
        self.serialize(out);
    }
}

impl Codec for Attribute {
    open spec fn decoding(s: Seq<u8>, pos: nat) -> Result<(AttributeView, nat), Error> {
        Attribute::parse(s, pos)
    }

    open spec fn well_formed(&self) -> bool {
        self.wf()
    }

    fn decode_at(buf: &[u8], pos: usize) -> (r: Result<(Self, usize), Error>) {
        Attribute::deserialize(buf, pos)
    }

    proof fn lemma_codec_round_trip(&self, s: Seq<u8>, pos: nat) {
        self.lemma_round_trip(s, pos);
    }
}

} // verus!
