//! Inventory sources and inventory transaction data.
use crate::error::Error;
use crate::wire::{
    Width, agrees, agrees_view, holds_at, lemma_holds_at_concat, lemma_holds_at_concat3,
    lemma_u8_round_trip, lemma_var_bytes_field_round_trip, lemma_var_i32_round_trip,
    lemma_var_u32_round_trip, lemma_var_u64_round_trip, lemma_width_round_trip, parse_u8,
    parse_var_bytes_field, parse_var_i32, parse_var_u32, parse_var_u64, parse_width, read_u8,
    read_var_bytes_field, read_var_i32, read_var_u32, read_var_u64, read_width, var_bytes,
    var_bytes_field, var_i32_bytes, width_bytes, write_u8, write_var_bytes_field, write_var_i32,
    write_var_u32, write_var_u64, write_width,
};
use vstd::prelude::*;

verus! {

/// Where the items of an inventory action come from.
#[derive(Debug, Clone, Copy, PartialEq, Eq, Structural)]
pub enum InventorySourceType {
    Invalid,
    Container,
    Global,
    WorldInteraction,
    Creative,
    UntrackedInteractionUI,
    NonImplemented,
}

impl Default for InventorySourceType {
    fn default() -> (r: Self)
        ensures
            r == InventorySourceType::NonImplemented,
    {
        InventorySourceType::NonImplemented
    }
}

impl InventorySourceType {
    /// The wire integer each variant is tagged with.
    pub open spec fn spec_tag(self) -> u32 {
        match self {
            InventorySourceType::Invalid => 4294967295,
            InventorySourceType::Container => 0,
            InventorySourceType::Global => 1,
            InventorySourceType::WorldInteraction => 2,
            InventorySourceType::Creative => 3,
            InventorySourceType::UntrackedInteractionUI => 4,
            InventorySourceType::NonImplemented => 99999,
        }
    }

    /// The variant a wire integer decodes to; a tag no variant carries gives `NonImplemented`.
    pub open spec fn spec_from_tag(t: u32) -> Self {
        if t == 4294967295 {
            InventorySourceType::Invalid
        } else if t == 0 {
            InventorySourceType::Container
        } else if t == 1 {
            InventorySourceType::Global
        } else if t == 2 {
            InventorySourceType::WorldInteraction
        } else if t == 3 {
            InventorySourceType::Creative
        } else if t == 4 {
            InventorySourceType::UntrackedInteractionUI
        } else {
            InventorySourceType::NonImplemented
        }
    }

    pub open spec fn spec_bytes(self) -> Seq<u8> {
        width_bytes(Width::Var, self.spec_tag())
    }

    pub open spec fn parse(s: Seq<u8>, pos: nat) -> Result<(Self, nat), Error> {
        match parse_width(Width::Var, s, pos) {
            Ok((t, p)) => Ok((Self::spec_from_tag(t), p)),
            Err(e) => Err(e),
        }
    }

    pub fn tag(&self) -> (r: u32)
        ensures
            r == self.spec_tag(),
    {
        match self {
            InventorySourceType::Invalid => 4294967295,
            InventorySourceType::Container => 0,
            InventorySourceType::Global => 1,
            InventorySourceType::WorldInteraction => 2,
            InventorySourceType::Creative => 3,
            InventorySourceType::UntrackedInteractionUI => 4,
            InventorySourceType::NonImplemented => 99999,
        }
    }

    pub fn from_tag(t: u32) -> (r: Self)
        ensures
            r == Self::spec_from_tag(t),
    {
        if t == 4294967295 {
            InventorySourceType::Invalid
        } else if t == 0 {
            InventorySourceType::Container
        } else if t == 1 {
            InventorySourceType::Global
        } else if t == 2 {
            InventorySourceType::WorldInteraction
        } else if t == 3 {
            InventorySourceType::Creative
        } else if t == 4 {
            InventorySourceType::UntrackedInteractionUI
        } else {
            InventorySourceType::NonImplemented
        }
    }

    pub fn serialize(&self, out: &mut Vec<u8>)
        ensures
            final(out)@ == old(out)@ + self.spec_bytes(),
    {
        write_width(out, Width::Var, self.tag());
    }

    pub fn deserialize(buf: &[u8], pos: usize) -> (r: Result<(Self, usize), Error>)
        ensures
            agrees(r, Self::parse(buf@, pos as nat), buf@.len()),
    {
        match read_width(buf, pos, Width::Var) {
            Ok((t, p)) => Ok((Self::from_tag(t), p)),
            Err(e) => Err(e),
        }
    }

    /// Every variant's tag decodes back to that variant.
    pub proof fn lemma_tag_round_trip(self)
        ensures
            Self::spec_from_tag(self.spec_tag()) == self,
    {
    }

    /// A tag that no variant carries decodes to `NonImplemented`, never to an error.
    pub proof fn lemma_unknown_tag(t: u32)
        requires
            forall|e: Self| e.spec_tag() != t,
        ensures
            Self::spec_from_tag(t) == InventorySourceType::NonImplemented,
    {
        if Self::spec_from_tag(t) != InventorySourceType::NonImplemented {
            assert(Self::spec_from_tag(t).spec_tag() == t);
        }
    }

    /// Decoding the bytes of a variant gives it back and consumes exactly those bytes.
    pub proof fn lemma_round_trip(self, s: Seq<u8>, pos: nat)
        requires
            holds_at(s, pos, self.spec_bytes()),
        ensures
            Self::parse(s, pos) == Ok::<(Self, nat), Error>((self, pos + self.spec_bytes().len())),
    {
        lemma_width_round_trip(Width::Var, self.spec_tag(), s, pos);
    }
}

/// Flags of an inventory source.
#[derive(Debug, Clone, Copy, PartialEq, Eq, Structural)]
pub enum InventorySourceFlag {
    DropItem,
    PickupItem,
    NoFlag,
}

impl Default for InventorySourceFlag {
    fn default() -> (r: Self)
        ensures
            r == InventorySourceFlag::NoFlag,
    {
        InventorySourceFlag::NoFlag
    }
}

impl InventorySourceFlag {
    /// The wire integer each variant is tagged with.
    pub open spec fn spec_tag(self) -> u32 {
        match self {
            InventorySourceFlag::DropItem => 0,
            InventorySourceFlag::PickupItem => 1,
            InventorySourceFlag::NoFlag => 2,
        }
    }

    /// The variant a wire integer decodes to; a tag no variant carries gives `NoFlag`.
    pub open spec fn spec_from_tag(t: u32) -> Self {
        if t == 0 {
            InventorySourceFlag::DropItem
        } else if t == 1 {
            InventorySourceFlag::PickupItem
        } else {
            InventorySourceFlag::NoFlag
        }
    }

    pub open spec fn spec_bytes(self) -> Seq<u8> {
        width_bytes(Width::Var, self.spec_tag())
    }

    pub open spec fn parse(s: Seq<u8>, pos: nat) -> Result<(Self, nat), Error> {
        match parse_width(Width::Var, s, pos) {
            Ok((t, p)) => Ok((Self::spec_from_tag(t), p)),
            Err(e) => Err(e),
        }
    }

    pub fn tag(&self) -> (r: u32)
        ensures
            r == self.spec_tag(),
    {
        match self {
            InventorySourceFlag::DropItem => 0,
            InventorySourceFlag::PickupItem => 1,
            InventorySourceFlag::NoFlag => 2,
        }
    }

    pub fn from_tag(t: u32) -> (r: Self)
        ensures
            r == Self::spec_from_tag(t),
    {
        if t == 0 {
            InventorySourceFlag::DropItem
        } else if t == 1 {
            InventorySourceFlag::PickupItem
        } else {
            InventorySourceFlag::NoFlag
        }
    }

    pub fn serialize(&self, out: &mut Vec<u8>)
        ensures
            final(out)@ == old(out)@ + self.spec_bytes(),
    {
        write_width(out, Width::Var, self.tag());
    }

    pub fn deserialize(buf: &[u8], pos: usize) -> (r: Result<(Self, usize), Error>)
        ensures
            agrees(r, Self::parse(buf@, pos as nat), buf@.len()),
    {
        match read_width(buf, pos, Width::Var) {
            Ok((t, p)) => Ok((Self::from_tag(t), p)),
            Err(e) => Err(e),
        }
    }

    /// Every variant's tag decodes back to that variant.
    pub proof fn lemma_tag_round_trip(self)
        ensures
            Self::spec_from_tag(self.spec_tag()) == self,
    {
    }

    /// A tag that no variant carries decodes to `NoFlag`, never to an error.
    pub proof fn lemma_unknown_tag(t: u32)
        requires
            forall|e: Self| e.spec_tag() != t,
        ensures
            Self::spec_from_tag(t) == InventorySourceFlag::NoFlag,
    {
        if Self::spec_from_tag(t) != InventorySourceFlag::NoFlag {
            assert(Self::spec_from_tag(t).spec_tag() == t);
        }
    }

    /// Decoding the bytes of a variant gives it back and consumes exactly those bytes.
    pub proof fn lemma_round_trip(self, s: Seq<u8>, pos: nat)
        requires
            holds_at(s, pos, self.spec_bytes()),
        ensures
            Self::parse(s, pos) == Ok::<(Self, nat), Error>((self, pos + self.spec_bytes().len())),
    {
        lemma_width_round_trip(Width::Var, self.spec_tag(), s, pos);
    }
}

/// The data of an inventory transaction, tagged by a variable-length unsigned
/// discriminant; each variant carries its own fixed set of fields.
#[derive(Debug, Clone, Copy, PartialEq, Eq, Structural)]
pub enum InventoryTransactionData {
    Normal,
    Mismatch,
    UseItem { action_type: u32, blockface: i32, hotbar_slot: i32 },
    UseItemOnEntity { target_runtime_id: u64, action_type: u32, hotbar_slot: i32 },
    ReleaseItem { action_type: u32, hotbar_slot: i32, item: i32 },
    Invalid,
}

impl Default for InventoryTransactionData {
    fn default() -> (r: Self)
        ensures
            r == InventoryTransactionData::Invalid,
    {
        InventoryTransactionData::Invalid
    }
}

/// The bytes of three variable-length fields: `a` and `c` signed or unsigned
/// as given by the variant, written in order.
pub open spec fn u32_i32_i32_bytes(a: u32, b: i32, c: i32) -> Seq<u8> {
    var_bytes(a as nat) + var_i32_bytes(b) + var_i32_bytes(c)
}

impl InventoryTransactionData {
    /// The discriminant of each variant.
    pub open spec fn spec_tag(self) -> u32 {
        match self {
            InventoryTransactionData::Normal => 0,
            InventoryTransactionData::Mismatch => 1,
            InventoryTransactionData::UseItem { .. } => 2,
            InventoryTransactionData::UseItemOnEntity { .. } => 3,
            InventoryTransactionData::ReleaseItem { .. } => 4,
            InventoryTransactionData::Invalid => 5,
        }
    }

    /// The discriminant followed by the variant's fields in declaration order.
    pub open spec fn spec_bytes(self) -> Seq<u8> {
        var_bytes(self.spec_tag() as nat) + match self {
            InventoryTransactionData::UseItem { action_type, blockface, hotbar_slot } =>
                u32_i32_i32_bytes(action_type, blockface, hotbar_slot),
            InventoryTransactionData::UseItemOnEntity {
                target_runtime_id,
                action_type,
                hotbar_slot,
            } => var_bytes(target_runtime_id as nat) + var_bytes(action_type as nat)
                + var_i32_bytes(hotbar_slot),
            InventoryTransactionData::ReleaseItem { action_type, hotbar_slot, item } =>
                u32_i32_i32_bytes(action_type, hotbar_slot, item),
            _ => Seq::empty(),
        }
    }

    /// Reads the discriminant, then the fields of the variant it names; a
    /// discriminant that names no variant gives `Invalid` and reads nothing more.
    pub open spec fn parse(s: Seq<u8>, pos: nat) -> Result<(Self, nat), Error> {
        match parse_var_u32(s, pos) {
            Err(e) => Err(e),
            Ok((t, p)) => if t == 0 {
                Ok((InventoryTransactionData::Normal, p))
            } else if t == 1 {
                Ok((InventoryTransactionData::Mismatch, p))
            } else if t == 2 {
                match parse_var_u32(s, p) {
                    Ok((a, p1)) => match parse_var_i32(s, p1) {
                        Ok((b, p2)) => match parse_var_i32(s, p2) {
                            Ok((c, p3)) => Ok(
                                (
                                    InventoryTransactionData::UseItem {
                                        action_type: a,
                                        blockface: b,
                                        hotbar_slot: c,
                                    },
                                    p3,
                                ),
                            ),
                            Err(e) => Err(e),
                        },
                        Err(e) => Err(e),
                    },
                    Err(e) => Err(e),
                }
            } else if t == 3 {
                match parse_var_u64(s, p) {
                    Ok((a, p1)) => match parse_var_u32(s, p1) {
                        Ok((b, p2)) => match parse_var_i32(s, p2) {
                            Ok((c, p3)) => Ok(
                                (
                                    InventoryTransactionData::UseItemOnEntity {
                                        target_runtime_id: a,
                                        action_type: b,
                                        hotbar_slot: c,
                                    },
                                    p3,
                                ),
                            ),
                            Err(e) => Err(e),
                        },
                        Err(e) => Err(e),
                    },
                    Err(e) => Err(e),
                }
            } else if t == 4 {
                match parse_var_u32(s, p) {
                    Ok((a, p1)) => match parse_var_i32(s, p1) {
                        Ok((b, p2)) => match parse_var_i32(s, p2) {
                            Ok((c, p3)) => Ok(
                                (
                                    InventoryTransactionData::ReleaseItem {
                                        action_type: a,
                                        hotbar_slot: b,
                                        item: c,
                                    },
                                    p3,
                                ),
                            ),
                            Err(e) => Err(e),
                        },
                        Err(e) => Err(e),
                    },
                    Err(e) => Err(e),
                }
            } else {
                Ok((InventoryTransactionData::Invalid, p))
            },
        }
    }

    pub fn serialize(&self, out: &mut Vec<u8>)
        ensures
            final(out)@ == old(out)@ + self.spec_bytes(),
    {
        match self {
            InventoryTransactionData::Normal => write_var_u32(out, 0),
            InventoryTransactionData::Mismatch => write_var_u32(out, 1),
            InventoryTransactionData::UseItem { action_type, blockface, hotbar_slot } => {
                write_var_u32(out, 2);
                write_var_u32(out, *action_type);
                write_var_i32(out, *blockface);
                write_var_i32(out, *hotbar_slot);
            },
            InventoryTransactionData::UseItemOnEntity {
                target_runtime_id,
                action_type,
                hotbar_slot,
            } => {
                write_var_u32(out, 3);
                write_var_u64(out, *target_runtime_id);
                write_var_u32(out, *action_type);
                write_var_i32(out, *hotbar_slot);
            },
            InventoryTransactionData::ReleaseItem { action_type, hotbar_slot, item } => {
                write_var_u32(out, 4);
                write_var_u32(out, *action_type);
                write_var_i32(out, *hotbar_slot);
                write_var_i32(out, *item);
            },
            InventoryTransactionData::Invalid => write_var_u32(out, 5),
        }
        assert(final(out)@ =~= old(out)@ + self.spec_bytes());
    }

    pub fn deserialize(buf: &[u8], pos: usize) -> (r: Result<(Self, usize), Error>)
        ensures
            agrees(r, Self::parse(buf@, pos as nat), buf@.len()),
    {
        let (t, p) = match read_var_u32(buf, pos) {
            Ok(v) => v,
            Err(e) => return Err(e),
        };
        if t == 0 {
            Ok((InventoryTransactionData::Normal, p))
        } else if t == 1 {
            Ok((InventoryTransactionData::Mismatch, p))
        } else if t == 2 {
            let (a, p1) = match read_var_u32(buf, p) {
                Ok(v) => v,
                Err(e) => return Err(e),
            };
            let (b, p2) = match read_var_i32(buf, p1) {
                Ok(v) => v,
                Err(e) => return Err(e),
            };
            let (c, p3) = match read_var_i32(buf, p2) {
                Ok(v) => v,
                Err(e) => return Err(e),
            };
            Ok((InventoryTransactionData::UseItem { action_type: a, blockface: b, hotbar_slot: c }, p3))
        } else if t == 3 {
            let (a, p1) = match read_var_u64(buf, p) {
                Ok(v) => v,
                Err(e) => return Err(e),
            };
            let (b, p2) = match read_var_u32(buf, p1) {
                Ok(v) => v,
                Err(e) => return Err(e),
            };
            let (c, p3) = match read_var_i32(buf, p2) {
                Ok(v) => v,
                Err(e) => return Err(e),
            };
            Ok(
                (
                    InventoryTransactionData::UseItemOnEntity {
                        target_runtime_id: a,
                        action_type: b,
                        hotbar_slot: c,
                    },
                    p3,
                ),
            )
        } else if t == 4 {
            let (a, p1) = match read_var_u32(buf, p) {
                Ok(v) => v,
                Err(e) => return Err(e),
            };
            let (b, p2) = match read_var_i32(buf, p1) {
                Ok(v) => v,
                Err(e) => return Err(e),
            };
            let (c, p3) = match read_var_i32(buf, p2) {
                Ok(v) => v,
                Err(e) => return Err(e),
            };
            Ok((InventoryTransactionData::ReleaseItem { action_type: a, hotbar_slot: b, item: c }, p3))
        } else {
            Ok((InventoryTransactionData::Invalid, p))
        }
    }

    /// Decoding the bytes of any variant gives it back and consumes exactly
    /// those bytes.
    pub proof fn lemma_round_trip(self, s: Seq<u8>, pos: nat)
        requires
            holds_at(s, pos, self.spec_bytes()),
        ensures
            Self::parse(s, pos) == Ok::<(Self, nat), Error>((self, pos + self.spec_bytes().len())),
    {
        let head = var_bytes(self.spec_tag() as nat);
        let rest = self.spec_bytes().subrange(head.len() as int, self.spec_bytes().len() as int);
        assert(self.spec_bytes() =~= head + rest);
        lemma_holds_at_concat(s, pos, head, rest);
        lemma_var_u32_round_trip(s, pos, self.spec_tag());
        let p = pos + head.len();
        match self {
            InventoryTransactionData::UseItem { action_type, blockface, hotbar_slot } => {
                assert(rest =~= var_bytes(action_type as nat) + var_i32_bytes(blockface)
                    + var_i32_bytes(hotbar_slot));
                crate::wire::lemma_holds_at_concat3(
                    s,
                    p,
                    var_bytes(action_type as nat),
                    var_i32_bytes(blockface),
                    var_i32_bytes(hotbar_slot),
                );
                lemma_var_u32_round_trip(s, p, action_type);
                lemma_var_i32_round_trip(s, p + var_bytes(action_type as nat).len(), blockface);
                lemma_var_i32_round_trip(
                    s,
                    p + var_bytes(action_type as nat).len() + var_i32_bytes(blockface).len(),
                    hotbar_slot,
                );
            },
            InventoryTransactionData::UseItemOnEntity {
                target_runtime_id,
                action_type,
                hotbar_slot,
            } => {
                assert(rest =~= var_bytes(target_runtime_id as nat) + var_bytes(action_type as nat)
                    + var_i32_bytes(hotbar_slot));
                crate::wire::lemma_holds_at_concat3(
                    s,
                    p,
                    var_bytes(target_runtime_id as nat),
                    var_bytes(action_type as nat),
                    var_i32_bytes(hotbar_slot),
                );
                lemma_var_u64_round_trip(s, p, target_runtime_id);
                lemma_var_u32_round_trip(
                    s,
                    p + var_bytes(target_runtime_id as nat).len(),
                    action_type,
                );
                lemma_var_i32_round_trip(
                    s,
                    p + var_bytes(target_runtime_id as nat).len() + var_bytes(action_type as nat).len(),
                    hotbar_slot,
                );
            },
            InventoryTransactionData::ReleaseItem { action_type, hotbar_slot, item } => {
                assert(rest =~= var_bytes(action_type as nat) + var_i32_bytes(hotbar_slot)
                    + var_i32_bytes(item));
                crate::wire::lemma_holds_at_concat3(
                    s,
                    p,
                    var_bytes(action_type as nat),
                    var_i32_bytes(hotbar_slot),
                    var_i32_bytes(item),
                );
                lemma_var_u32_round_trip(s, p, action_type);
                lemma_var_i32_round_trip(s, p + var_bytes(action_type as nat).len(), hotbar_slot);
                lemma_var_i32_round_trip(
                    s,
                    p + var_bytes(action_type as nat).len() + var_i32_bytes(hotbar_slot).len(),
                    item,
                );
            },
            _ => {},
        }
    }

    /// A discriminant that names no variant decodes to `Invalid`, never to an
    /// error, once it has been read.
    pub proof fn lemma_unknown_tag(s: Seq<u8>, pos: nat)
        requires
            parse_var_u32(s, pos) matches Ok((t, _)) && t > 4,
        ensures
            Self::parse(s, pos) matches Ok((v, _)) && v == InventoryTransactionData::Invalid,
    {
    }
}

/// Where the items of an inventory action come from.
#[derive(Debug, Clone, Copy, PartialEq, Eq, Structural, Default)]
pub struct InventorySource {
    pub source_type: InventorySourceType,
    pub window_id: i32,
    pub flags: InventorySourceFlag,
}

impl InventorySource {
    /// The fields in declaration order.
    pub open spec fn spec_bytes(self) -> Seq<u8> {
        self.source_type.spec_bytes()
            + (var_i32_bytes(self.window_id)
            + self.flags.spec_bytes())
    }

    pub open spec fn parse(s: Seq<u8>, pos: nat) -> Result<(InventorySource, nat), Error> {
        match InventorySourceType::parse(s, pos) {
            Ok((source_type, p1)) => match parse_var_i32(s, p1) {
                Ok((window_id, p2)) => match InventorySourceFlag::parse(s, p2) {
                    Ok((flags, p3)) => Ok((InventorySource { source_type, window_id, flags }, p3)),
                    Err(e) => Err(e),
                },
                Err(e) => Err(e),
            },
            Err(e) => Err(e),
        }
    }

    pub fn serialize(&self, out: &mut Vec<u8>)
        ensures
            final(out)@ == old(out)@ + self.spec_bytes(),
    {
        self.source_type.serialize(out);
        write_var_i32(out, self.window_id);
        self.flags.serialize(out);
        assert(final(out)@ =~= old(out)@ + self.spec_bytes());
    }

    pub fn deserialize(buf: &[u8], pos: usize) -> (r: Result<(Self, usize), Error>)
        ensures
            agrees(r, Self::parse(buf@, pos as nat), buf@.len()),
    {
        let (source_type, p1) = match InventorySourceType::deserialize(buf, pos) {
            Ok(x) => x,
            Err(e) => return Err(e),
        };
        let (window_id, p2) = match read_var_i32(buf, p1) {
            Ok(x) => x,
            Err(e) => return Err(e),
        };
        let (flags, p3) = match InventorySourceFlag::deserialize(buf, p2) {
            Ok(x) => x,
            Err(e) => return Err(e),
        };
        Ok((InventorySource { source_type, window_id, flags }, p3))
    }

    /// Decoding the bytes of a value gives it back and consumes exactly those bytes.
    pub proof fn lemma_round_trip(self, s: Seq<u8>, pos: nat)
        requires
            holds_at(s, pos, self.spec_bytes()),
        ensures
            Self::parse(s, pos) == Ok::<(InventorySource, nat), Error>(
                (self, pos + self.spec_bytes().len()),
            ),
    {
        let t3 = self.flags.spec_bytes();
        let t2 = var_i32_bytes(self.window_id) + t3;
        lemma_holds_at_concat(s, pos, self.source_type.spec_bytes(), t2);
        self.source_type.lemma_round_trip(s, pos);
        let p1 = pos + self.source_type.spec_bytes().len();
        lemma_holds_at_concat(s, p1, var_i32_bytes(self.window_id), t3);
        lemma_var_i32_round_trip(s, p1, self.window_id);
        let p2 = p1 + var_i32_bytes(self.window_id).len();
        self.flags.lemma_round_trip(s, p2);
    }
}

/// One action of an inventory transaction.
#[derive(Debug, Clone, Copy, PartialEq, Eq, Structural, Default)]
pub struct InventoryAction {
    pub source: InventorySource,
    pub slot: u32,
}

impl InventoryAction {
    /// The fields in declaration order.
    pub open spec fn spec_bytes(self) -> Seq<u8> {
        self.source.spec_bytes()
            + var_bytes(self.slot as nat)
    }

    pub open spec fn parse(s: Seq<u8>, pos: nat) -> Result<(InventoryAction, nat), Error> {
        match InventorySource::parse(s, pos) {
            Ok((source, p1)) => match parse_var_u32(s, p1) {
                Ok((slot, p2)) => Ok((InventoryAction { source, slot }, p2)),
                Err(e) => Err(e),
            },
            Err(e) => Err(e),
        }
    }

    pub fn serialize(&self, out: &mut Vec<u8>)
        ensures
            final(out)@ == old(out)@ + self.spec_bytes(),
    {
        self.source.serialize(out);
        write_var_u32(out, self.slot);
        assert(final(out)@ =~= old(out)@ + self.spec_bytes());
    }

    pub fn deserialize(buf: &[u8], pos: usize) -> (r: Result<(Self, usize), Error>)
        ensures
            agrees(r, Self::parse(buf@, pos as nat), buf@.len()),
    {
        let (source, p1) = match InventorySource::deserialize(buf, pos) {
            Ok(x) => x,
            Err(e) => return Err(e),
        };
        let (slot, p2) = match read_var_u32(buf, p1) {
            Ok(x) => x,
            Err(e) => return Err(e),
        };
        Ok((InventoryAction { source, slot }, p2))
    }

    /// Decoding the bytes of a value gives it back and consumes exactly those bytes.
    pub proof fn lemma_round_trip(self, s: Seq<u8>, pos: nat)
        requires
            holds_at(s, pos, self.spec_bytes()),
        ensures
            Self::parse(s, pos) == Ok::<(InventoryAction, nat), Error>(
                (self, pos + self.spec_bytes().len()),
            ),
    {
        let t2 = var_bytes(self.slot as nat);
        lemma_holds_at_concat(s, pos, self.source.spec_bytes(), t2);
        self.source.lemma_round_trip(s, pos);
        let p1 = pos + self.source.spec_bytes().len();
        lemma_var_u32_round_trip(s, p1, self.slot);
    }
}

/// Slots of a container changed by a legacy request.
#[derive(Debug, Clone, PartialEq, Eq, Default)]
pub struct LegacyItemSlot {
    pub container: u8,
    pub slots: Vec<u8>,
}

/// The value of a `LegacyItemSlot`, with its text and byte fields as sequences.
pub ghost struct LegacyItemSlotView {
    pub container: u8,
    pub slots: Seq<u8>,
}

impl View for LegacyItemSlot {
    type V = LegacyItemSlotView;

    open spec fn view(&self) -> LegacyItemSlotView {
        LegacyItemSlotView {
            container: self.container,
            slots: self.slots@,
        }
    }
}

impl LegacyItemSlot {
    /// The fields in declaration order.
    pub open spec fn spec_bytes(self) -> Seq<u8> {
        seq![self.container]
            + var_bytes_field(self.slots@)
    }

    /// Every text and byte field fits its length prefix.
    pub open spec fn wf(self) -> bool {
        self.slots@.len() <= u32::MAX
    }

    pub open spec fn parse(s: Seq<u8>, pos: nat) -> Result<(LegacyItemSlotView, nat), Error> {
        match parse_u8(s, pos) {
            Ok((container, p1)) => match parse_var_bytes_field(s, p1) {
                Ok((slots, p2)) => Ok((LegacyItemSlotView { container, slots }, p2)),
                Err(e) => Err(e),
            },
            Err(e) => Err(e),
        }
    }

    pub fn serialize(&self, out: &mut Vec<u8>)
        ensures
            final(out)@ == old(out)@ + self.spec_bytes(),
    {
        write_u8(out, self.container);
        write_var_bytes_field(out, self.slots.as_slice());
        assert(final(out)@ =~= old(out)@ + self.spec_bytes());
    }

    pub fn deserialize(buf: &[u8], pos: usize) -> (r: Result<(Self, usize), Error>)
        ensures
            agrees_view(r, Self::parse(buf@, pos as nat), buf@.len()),
    {
        let (container, p1) = match read_u8(buf, pos) {
            Ok(x) => x,
            Err(e) => return Err(e),
        };
        let (slots, p2) = match read_var_bytes_field(buf, p1) {
            Ok(x) => x,
            Err(e) => return Err(e),
        };
        Ok((LegacyItemSlot { container, slots }, p2))
    }

    /// Decoding the bytes of a value gives it back and consumes exactly those bytes.
    pub proof fn lemma_round_trip(self, s: Seq<u8>, pos: nat)
        requires
            self.wf(),
            holds_at(s, pos, self.spec_bytes()),
        ensures
            Self::parse(s, pos) == Ok::<(LegacyItemSlotView, nat), Error>(
                (self@, pos + self.spec_bytes().len()),
            ),
    {
        let t2 = var_bytes_field(self.slots@);
        lemma_holds_at_concat(s, pos, seq![self.container], t2);
        lemma_u8_round_trip(s, pos, self.container);
        let p1 = pos + seq![self.container].len();
        lemma_var_bytes_field_round_trip(s, p1, self.slots@);
    }
}

} // verus!
