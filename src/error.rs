use vstd::prelude::*;

verus! {

/// Errors returned by the decoders of this library.
#[derive(Debug, Clone, Copy, PartialEq, Eq, Structural)]
pub enum Error {
    /// The input ended before the value being read was complete.
    UnexpectedEnd,
    /// A variable-length integer ran over its byte limit or over its type's range.
    VarIntOverflow,
    /// A length-prefixed text field did not hold valid UTF-8.
    InvalidText,
    /// The packet header named an ID that no packet kind is registered under.
    UnknownPacketId { id: u32, offset: usize },
    /// The value's wire shape cannot be decoded without context this library does not own.
    Unsupported,
}

} // verus!
