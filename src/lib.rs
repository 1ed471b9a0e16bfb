//! Message framing and encoding core of a Bedrock-compatible game protocol:
//! the packed packet header, the packet registry, the packet bodies whose shape
//! depends on a discriminant, and the compact value codecs.

pub mod data;
pub mod error;
pub mod packet;
pub mod wire;

use vstd::prelude::*;

verus! {

/// The latest protocol version supported by this library.
pub const PROTOCOL_VERSION: u16 = 618;

/// The latest game version supported by this library.
pub const MINECRAFT_VERSION: &'static str = "1.20.30";

} // verus!
