//! Packet bodies exchanged before login.
use crate::error::Error;
use crate::wire::{
    agrees, bool_bytes, holds_at, i32_be_bytes, lemma_bool_round_trip, lemma_holds_at_concat,
    lemma_i32_be_round_trip, lemma_u16_le_round_trip, lemma_u32_le_round_trip, lemma_u8_round_trip,
    parse_bool, parse_i32_be, parse_u16_le, parse_u32_le, parse_u8, read_bool, read_i32_be,
    read_u16_le, read_u32_le, read_u8, u16_le_bytes, u32_le_bytes, write_bool, write_i32_be,
    write_u16_le, write_u32_le, write_u8,
};
use vstd::prelude::*;

verus! {

/// Sent by a client to ask for network settings; its protocol version is big-endian.
#[derive(Debug, Clone, Copy, PartialEq, Eq, Structural, Default)]
pub struct RequestNetworkSettings {
    pub client_protocol: i32,
}

impl RequestNetworkSettings {
    /// The fields in declaration order.
    pub open spec fn spec_bytes(self) -> Seq<u8> {
        i32_be_bytes(self.client_protocol)
    }

    pub open spec fn parse(s: Seq<u8>, pos: nat) -> Result<(RequestNetworkSettings, nat), Error> {
        match parse_i32_be(s, pos) {
            Ok((client_protocol, p1)) => Ok((RequestNetworkSettings { client_protocol }, p1)),
            Err(e) => Err(e),
        }
    }

    pub fn serialize(&self, out: &mut Vec<u8>)
        ensures
            final(out)@ == old(out)@ + self.spec_bytes(),
    {
        write_i32_be(out, self.client_protocol);
        assert(final(out)@ =~= old(out)@ + self.spec_bytes());
    }

    pub fn deserialize(buf: &[u8], pos: usize) -> (r: Result<(Self, usize), Error>)
        ensures
            agrees(r, Self::parse(buf@, pos as nat), buf@.len()),
    {
        let (client_protocol, p1) = match read_i32_be(buf, pos) {
            Ok(x) => x,
            Err(e) => return Err(e),
        };
        Ok((RequestNetworkSettings { client_protocol }, p1))
    }

    /// Decoding the bytes of a value gives it back and consumes exactly those bytes.
    pub proof fn lemma_round_trip(self, s: Seq<u8>, pos: nat)
        requires
            holds_at(s, pos, self.spec_bytes()),
        ensures
            Self::parse(s, pos) == Ok::<(RequestNetworkSettings, nat), Error>(
                (self, pos + self.spec_bytes().len()),
            ),
    {
        lemma_i32_be_round_trip(s, pos, self.client_protocol);
    }
}

/// Network settings sent by the server; the throttle scalar is an IEEE-754 single-precision bit pattern.
#[derive(Debug, Clone, Copy, PartialEq, Eq, Structural, Default)]
pub struct NetworkSettings {
    pub compression_threshold: u16,
    pub compression_alogrithm: u16,
    pub client_throttle: bool,
    pub client_throttle_threshold: u8,
    pub client_throttle_scalar: u32,
}

impl NetworkSettings {
    /// The fields in declaration order.
    pub open spec fn spec_bytes(self) -> Seq<u8> {
        u16_le_bytes(self.compression_threshold)
            + (u16_le_bytes(self.compression_alogrithm)
            + (bool_bytes(self.client_throttle)
            + (seq![self.client_throttle_threshold]
            + u32_le_bytes(self.client_throttle_scalar))))
    }

    pub open spec fn parse(s: Seq<u8>, pos: nat) -> Result<(NetworkSettings, nat), Error> {
        match parse_u16_le(s, pos) {
            Ok((compression_threshold, p1)) => match parse_u16_le(s, p1) {
                Ok((compression_alogrithm, p2)) => match parse_bool(s, p2) {
                    Ok((client_throttle, p3)) => match parse_u8(s, p3) {
                        Ok((client_throttle_threshold, p4)) => match parse_u32_le(s, p4) {
                            Ok((client_throttle_scalar, p5)) => Ok(
                                (
                                    NetworkSettings {
                                        compression_threshold,
                                        compression_alogrithm,
                                        client_throttle,
                                        client_throttle_threshold,
                                        client_throttle_scalar,
                                    },
                                    p5,
                                ),
                            ),
                            Err(e) => Err(e),
                        },
                        Err(e) => Err(e),
                    },
                    Err(e) => Err(e),
                },
                Err(e) => Err(e),
            },
            Err(e) => Err(e),
        }
    }

    pub fn serialize(&self, out: &mut Vec<u8>)
        ensures
            final(out)@ == old(out)@ + self.spec_bytes(),
    {
        write_u16_le(out, self.compression_threshold);
        write_u16_le(out, self.compression_alogrithm);
        write_bool(out, self.client_throttle);
        write_u8(out, self.client_throttle_threshold);
        write_u32_le(out, self.client_throttle_scalar);
        assert(final(out)@ =~= old(out)@ + self.spec_bytes());
    }

    pub fn deserialize(buf: &[u8], pos: usize) -> (r: Result<(Self, usize), Error>)
        ensures
            agrees(r, Self::parse(buf@, pos as nat), buf@.len()),
    {
        let (compression_threshold, p1) = match read_u16_le(buf, pos) {
            Ok(x) => x,
            Err(e) => return Err(e),
        };
        let (compression_alogrithm, p2) = match read_u16_le(buf, p1) {
            Ok(x) => x,
            Err(e) => return Err(e),
        };
        let (client_throttle, p3) = match read_bool(buf, p2) {
            Ok(x) => x,
            Err(e) => return Err(e),
        };
        let (client_throttle_threshold, p4) = match read_u8(buf, p3) {
            Ok(x) => x,
            Err(e) => return Err(e),
        };
        let (client_throttle_scalar, p5) = match read_u32_le(buf, p4) {
            Ok(x) => x,
            Err(e) => return Err(e),
        };
        Ok(
            (
                NetworkSettings {
                    compression_threshold,
                    compression_alogrithm,
                    client_throttle,
                    client_throttle_threshold,
                    client_throttle_scalar,
                },
                p5,
            ),
        )
    }

    /// Decoding the bytes of a value gives it back and consumes exactly those bytes.
    pub proof fn lemma_round_trip(self, s: Seq<u8>, pos: nat)
        requires
            holds_at(s, pos, self.spec_bytes()),
        ensures
            Self::parse(s, pos) == Ok::<(NetworkSettings, nat), Error>(
                (self, pos + self.spec_bytes().len()),
            ),
    {
        let t5 = u32_le_bytes(self.client_throttle_scalar);
        let t4 = seq![self.client_throttle_threshold] + t5;
        let t3 = bool_bytes(self.client_throttle) + t4;
        let t2 = u16_le_bytes(self.compression_alogrithm) + t3;
        lemma_holds_at_concat(s, pos, u16_le_bytes(self.compression_threshold), t2);
        lemma_u16_le_round_trip(s, pos, self.compression_threshold);
        let p1 = pos + u16_le_bytes(self.compression_threshold).len();
        lemma_holds_at_concat(s, p1, u16_le_bytes(self.compression_alogrithm), t3);
        lemma_u16_le_round_trip(s, p1, self.compression_alogrithm);
        let p2 = p1 + u16_le_bytes(self.compression_alogrithm).len();
        lemma_holds_at_concat(s, p2, bool_bytes(self.client_throttle), t4);
        lemma_bool_round_trip(s, p2, self.client_throttle);
        let p3 = p2 + bool_bytes(self.client_throttle).len();
        lemma_holds_at_concat(s, p3, seq![self.client_throttle_threshold], t5);
        lemma_u8_round_trip(s, p3, self.client_throttle_threshold);
        let p4 = p3 + seq![self.client_throttle_threshold].len();
        lemma_u32_le_round_trip(s, p4, self.client_throttle_scalar);
    }
}

} // verus!
