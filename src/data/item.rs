//! Item stacks, whose encoding stops after the item type when there is no item.
use crate::error::Error;
use crate::wire::{
    Codec, Encode, agrees_view, bool_bytes, holds_at, i16_le_bytes, le_bytes, lemma_bool_round_trip,
    lemma_holds_at_concat, lemma_i16_le_round_trip, lemma_var_text_round_trip, parse_bool,
    parse_i16_le, parse_var_text, read_bool, read_i16_le, read_var_text, short_texts, text_fits,
    texts_view, var_bytes, var_i32_bytes, var_text, write_bool, write_i16_le, write_le,
    write_short_texts, write_var_i32, write_var_text, write_var_u32,
};
use vstd::prelude::*;

verus! {

/// The type of an item: its network ID (zero means "no item") and its
/// metadata value.
#[derive(Debug, Clone, Copy, PartialEq, Eq, Structural, Default)]
pub struct ItemType {
    pub network_id: i32,
    pub metadata_value: u32,
}

/// A stack of items as it appears in inventories and held-item fields.
#[derive(Debug, Clone, PartialEq, Eq, Default)]
pub struct ItemStack {
    pub item_type: ItemType,
    pub block_runtime_id: i32,
    pub count: u16,
    pub can_be_placed_on: Vec<String>,
    pub can_break: Vec<String>,
}

/// A list of texts with a 32-bit little-endian count and 16-bit text prefixes.
pub open spec fn placement_list(items: Seq<Seq<char>>) -> Seq<u8> {
    le_bytes((items.len() as u32) as nat, 4) + short_texts(items)
}

fn write_placement_list(out: &mut Vec<u8>, items: &Vec<String>)
    ensures
        final(out)@ == old(out)@ + placement_list(texts_view(items@)),
{
    write_le(out, (items.len() as u32) as u64, 4);
    write_short_texts(out, items);
    assert(final(out)@ =~= old(out)@ + placement_list(texts_view(items@)));
}

impl ItemStack {
    /// The bytes of a stack: only the item type's network ID when it is zero;
    /// otherwise that ID, the count, the metadata value, the block runtime ID
    /// and the two placement lists.
    pub open spec fn spec_bytes(self) -> Seq<u8> {
        if self.item_type.network_id == 0 {
            var_i32_bytes(0)
        } else {
            var_i32_bytes(self.item_type.network_id) + le_bytes(self.count as nat, 2) + var_bytes(
                self.item_type.metadata_value as nat,
            ) + var_i32_bytes(self.block_runtime_id) + placement_list(
                texts_view(self.can_be_placed_on@),
            ) + placement_list(texts_view(self.can_break@))
        }
    }

    pub fn serialize(&self, out: &mut Vec<u8>)
        ensures
            final(out)@ == old(out)@ + self.spec_bytes(),
    {
        write_var_i32(out, self.item_type.network_id);
        if self.item_type.network_id == 0 {
            return;
        }
        write_le(out, self.count as u64, 2);
        write_var_u32(out, self.item_type.metadata_value);
        write_var_i32(out, self.block_runtime_id);
        write_placement_list(out, &self.can_be_placed_on);
        write_placement_list(out, &self.can_break);
        assert(final(out)@ =~= old(out)@ + self.spec_bytes());
    }

    /// Decoding a stack needs the item table of the connection, which this
    /// library does not hold: it always reports `Unsupported`.
    pub fn deserialize(buf: &[u8], pos: usize) -> (r: Result<(Self, usize), Error>)
        ensures
            r == Err::<(Self, usize), Error>(Error::Unsupported),
    {
        Err(Error::Unsupported)
    }
}

/// A stack without an item encodes as the single byte of a zero network ID,
/// whatever its other fields hold.
pub proof fn lemma_empty_stack_bytes(a: ItemStack)
    requires
        a.item_type.network_id == 0,
    ensures
        a.spec_bytes() == seq![0u8],
{
    assert((0i32 as u32) == 0u32);
    assert(var_bytes(0) =~= seq![0u8]);
}


/// An entry of the item table sent at game start.
#[derive(Debug, Clone, PartialEq, Eq, Default)]
pub struct ItemEntry {
    pub name: String,
    pub runtime_id: i16,
    pub component_based: bool,
}

/// The value of a `ItemEntry`, with its text and byte fields as sequences.
pub ghost struct ItemEntryView {
    pub name: Seq<char>,
    pub runtime_id: i16,
    pub component_based: bool,
}

impl View for ItemEntry {
    type V = ItemEntryView;

    open spec fn view(&self) -> ItemEntryView {
        ItemEntryView {
            name: self.name@,
            runtime_id: self.runtime_id,
            component_based: self.component_based,
        }
    }
}

impl ItemEntry {
    /// The fields in declaration order.
    pub open spec fn spec_bytes(self) -> Seq<u8> {
        var_text(self.name@)
            + (i16_le_bytes(self.runtime_id)
            + bool_bytes(self.component_based))
    }

    /// Every text and byte field fits its length prefix.
    pub open spec fn wf(self) -> bool {
        text_fits(self.name@)
    }

    pub open spec fn parse(s: Seq<u8>, pos: nat) -> Result<(ItemEntryView, nat), Error> {
        match parse_var_text(s, pos) {
            Ok((name, p1)) => match parse_i16_le(s, p1) {
                Ok((runtime_id, p2)) => match parse_bool(s, p2) {
                    Ok((component_based, p3)) => Ok(
                        (
                            ItemEntryView {
                                name,
                                runtime_id,
                                component_based,
                            },
                            p3,
                        ),
                    ),
                    Err(e) => Err(e),
                },
                Err(e) => Err(e),
            },
            Err(e) => Err(e),
        }
    }

    pub fn serialize(&self, out: &mut Vec<u8>)
        ensures
            final(out)@ == old(out)@ + self.spec_bytes(),
    {
        write_var_text(out, &self.name);
        write_i16_le(out, self.runtime_id);
        write_bool(out, self.component_based);
        assert(final(out)@ =~= old(out)@ + self.spec_bytes());
    }

    pub fn deserialize(buf: &[u8], pos: usize) -> (r: Result<(Self, usize), Error>)
        ensures
            agrees_view(r, Self::parse(buf@, pos as nat), buf@.len()),
    {
        let (name, p1) = match read_var_text(buf, pos) {
            Ok(x) => x,
            Err(e) => return Err(e),
        };
        let (runtime_id, p2) = match read_i16_le(buf, p1) {
            Ok(x) => x,
            Err(e) => return Err(e),
        };
        let (component_based, p3) = match read_bool(buf, p2) {
            Ok(x) => x,
            Err(e) => return Err(e),
        };
        Ok((ItemEntry { name, runtime_id, component_based }, p3))
    }

    /// Decoding the bytes of a value gives it back and consumes exactly those bytes.
    pub proof fn lemma_round_trip(self, s: Seq<u8>, pos: nat)
        requires
            self.wf(),
            holds_at(s, pos, self.spec_bytes()),
        ensures
            Self::parse(s, pos) == Ok::<(ItemEntryView, nat), Error>(
                (self@, pos + self.spec_bytes().len()),
            ),
    {
        let t3 = bool_bytes(self.component_based);
        let t2 = i16_le_bytes(self.runtime_id) + t3;
        lemma_holds_at_concat(s, pos, var_text(self.name@), t2);
        lemma_var_text_round_trip(s, pos, self.name@);
        let p1 = pos + var_text(self.name@).len();
        lemma_holds_at_concat(s, p1, i16_le_bytes(self.runtime_id), t3);
        lemma_i16_le_round_trip(s, p1, self.runtime_id);
        let p2 = p1 + i16_le_bytes(self.runtime_id).len();
        lemma_bool_round_trip(s, p2, self.component_based);
    }
}

impl Encode for ItemEntry {
    open spec fn encoding(&self) -> Seq<u8> {
        self.spec_bytes()
    }

    fn encode_into(&self, out: &mut Vec<u8>) {
        self.serialize(out);
    }
}

impl Codec for ItemEntry {
    open spec fn decoding(s: Seq<u8>, pos: nat) -> Result<(ItemEntryView, nat), Error> {
        ItemEntry::parse(s, pos)
    }

    open spec fn well_formed(&self) -> bool {
        self.wf()
    }

    fn decode_at(buf: &[u8], pos: usize) -> (r: Result<(Self, usize), Error>) {
        ItemEntry::deserialize(buf, pos)
    }

    proof fn lemma_codec_round_trip(&self, s: Seq<u8>, pos: nat) {
        self.lemma_round_trip(s, pos);
    }
}

/// An item stack with its optional network ID, written as a presence flag and the ID.
#[derive(Debug, Clone, PartialEq, Eq, Default)]
pub struct ItemInstance {
    pub stack_network_id: Option<i32>,
    pub stack: ItemStack,
}

impl ItemInstance {
    /// The fields in declaration order.
    pub open spec fn spec_bytes(self) -> Seq<u8> {
        (match self.stack_network_id { Some(v) => bool_bytes(true) + var_i32_bytes(v), None => bool_bytes(false) })
            + self.stack.spec_bytes()
    }

    pub fn serialize(&self, out: &mut Vec<u8>)
        ensures
            final(out)@ == old(out)@ + self.spec_bytes(),
    {
        let ghost o = out@;
        match self.stack_network_id {
            Some(v) => {
                write_bool(out, true);
                write_var_i32(out, v);
            },
            None => write_bool(out, false),
        }
        let ghost b1 = (match self.stack_network_id { Some(v) => bool_bytes(true) + var_i32_bytes(v), None => bool_bytes(false) });
        self.stack.serialize(out);
        let ghost b2 = b1 + self.stack.spec_bytes();
        proof {
            vstd::seq_lib::lemma_concat_associative(o, b1, self.stack.spec_bytes());
        }
    }
}

} // verus!
