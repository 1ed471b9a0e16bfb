//! Custom block entries.
use crate::error::Error;
use crate::wire::{
    Encode, var_text, write_bytes, write_var_text,
};
use vstd::prelude::*;

verus! {


/// A custom block: its name and its properties as an already-encoded compound tag, written verbatim.
#[derive(Debug, Clone, PartialEq, Eq, Default)]
pub struct BlockEntry {
    pub name: String,
    pub properties: Vec<u8>,
}

impl BlockEntry {
    /// The fields in declaration order.
    pub open spec fn spec_bytes(self) -> Seq<u8> {
        var_text(self.name@)
            + self.properties@
    }

    pub fn serialize(&self, out: &mut Vec<u8>)
        ensures
            final(out)@ == old(out)@ + self.spec_bytes(),
    {
        let ghost o = out@;
        write_var_text(out, &self.name);
        let ghost b1 = var_text(self.name@);
        write_bytes(out, self.properties.as_slice());
        let ghost b2 = b1 + self.properties@;
        proof {
            vstd::seq_lib::lemma_concat_associative(o, b1, self.properties@);
        }
    }
}

impl Encode for BlockEntry {
    open spec fn encoding(&self) -> Seq<u8> {
        self.spec_bytes()
    }

    fn encode_into(&self, out: &mut Vec<u8>) {
        self.serialize(out);
    }
}

} // verus!
