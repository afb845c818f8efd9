//! Bytes of stored queries, written as base64 text.

use crate::text::{concat2, concat4, decimal, decimal_text};
use base64::Engine;
use vstd::prelude::*;

verus! {

/// Why a text is not the base64 form of any bytes.
#[derive(Debug, PartialEq, Eq, Structural, Clone, Copy)]
pub enum DecodeFault {
    /// A byte that cannot stand at its offset.
    InvalidByte(usize, u8),
    /// A number of symbols that no bytes give.
    InvalidLength(usize),
    /// A last symbol with bits that belong to no byte.
    InvalidLastSymbol(usize, u8),
    /// Padding that is missing or too much.
    InvalidPadding,
}

/// The base64 text of some bytes.
pub uninterp spec fn base64_text(bytes: Seq<u8>) -> Seq<char>;

/// The bytes of a base64 text, or why there are none.
pub uninterp spec fn base64_bytes(text: Seq<char>) -> Result<Seq<u8>, DecodeFault>;

/// The outcome of decoding, as a mathematical value.
pub open spec fn decoded(r: Result<Vec<u8>, DecodeFault>) -> Result<Seq<u8>, DecodeFault> {
    match r {
        Ok(v) => Ok(v@),
        Err(e) => Err(e),
    }
}

/// Calls `Engine::encode` of `base64` with the engine `STANDARD`. The text depends on
/// the bytes alone, and `Engine::decode` gives the bytes back from it. A text that
/// does not fit in memory makes the call panic.
#[verifier::external_body]
fn encode_base64(bytes: &Vec<u8>) -> (r: String)
    requires
        (bytes@.len() + 2) / 3 * 4 <= isize::MAX,
    ensures
        r@ == base64_text(bytes@),
        base64_bytes(r@) is Ok && base64_bytes(r@)->Ok_0 == bytes@,
{
    base64::engine::general_purpose::STANDARD.encode(bytes)
}

/// Calls `Engine::decode` of `base64` with the engine `STANDARD`. The outcome depends
/// on the text alone.
#[verifier::external_body]
fn decode_base64(text: &str) -> (r: Result<Vec<u8>, DecodeFault>)
    ensures
        decoded(r) == base64_bytes(text@),
{
    base64::engine::general_purpose::STANDARD.decode(text).map_err(
        |e|
            match e {
                base64::DecodeError::InvalidByte(at, b) => DecodeFault::InvalidByte(at, b),
                base64::DecodeError::InvalidLength(n) => DecodeFault::InvalidLength(n),
                base64::DecodeError::InvalidLastSymbol(at, b) => DecodeFault::InvalidLastSymbol(at, b),
                base64::DecodeError::InvalidPadding => DecodeFault::InvalidPadding,
            },
    )
}

/// What is said of a fault.
pub open spec fn fault_text(e: DecodeFault) -> Seq<char> {
    match e {
        DecodeFault::InvalidByte(at, b) => "Invalid symbol "@ + decimal_text(b as nat) + ", offset "@
            + (decimal_text(at as nat) + "."@),
        DecodeFault::InvalidLength(n) => "Invalid input length: "@ + decimal_text(n as nat),
        DecodeFault::InvalidLastSymbol(at, b) => "Invalid last symbol "@ + decimal_text(b as nat)
            + ", offset "@ + (decimal_text(at as nat) + "."@),
        DecodeFault::InvalidPadding => "Invalid padding"@,
    }
}

impl DecodeFault {
    /// What is said of this fault.
    pub fn message(&self) -> (r: String)
        ensures
            r@ == fault_text(*self),
    {
        match *self {
            DecodeFault::InvalidByte(at, b) => concat4(
                "Invalid symbol ",
                &decimal(b as u64),
                ", offset ",
                &concat2(&decimal(at as u64), "."),
            ),
            DecodeFault::InvalidLength(n) => concat2("Invalid input length: ", &decimal(n as u64)),
            DecodeFault::InvalidLastSymbol(at, b) => concat4(
                "Invalid last symbol ",
                &decimal(b as u64),
                ", offset ",
                &concat2(&decimal(at as u64), "."),
            ),
            DecodeFault::InvalidPadding => "Invalid padding".to_string(),
        }
    }
}

/// The text that stands for bytes in a stored catalog.
pub fn serialize(bytes: &Vec<u8>) -> (r: String)
    requires
        (bytes@.len() + 2) / 3 * 4 <= isize::MAX,
    ensures
        r@ == base64_text(bytes@),
        base64_bytes(r@) is Ok && base64_bytes(r@)->Ok_0 == bytes@,
{
    encode_base64(bytes)
}

/// The outcome of reading stored bytes.
pub open spec fn read_outcome(r: Result<Seq<u8>, DecodeFault>) -> Result<Seq<u8>, Seq<char>> {
    match r {
        Ok(b) => Ok(b),
        Err(e) => Err(fault_text(e)),
    }
}

/// The bytes that a text of a stored catalog stands for, or what is said where it
/// stands for none.
pub fn deserialize(text: &str) -> (r: Result<Vec<u8>, String>)
    ensures
        match r {
            Ok(b) => read_outcome(base64_bytes(text@)) == Ok::<Seq<u8>, Seq<char>>(b@),
            Err(e) => read_outcome(base64_bytes(text@)) == Err::<Seq<u8>, Seq<char>>(e@),
        },
{
    read_stored(decode_base64(text))
}

/// The bytes that were decoded, or what is said of the fault.
pub fn read_stored(outcome: Result<Vec<u8>, DecodeFault>) -> (r: Result<Vec<u8>, String>)
    ensures
        match r {
            Ok(b) => read_outcome(decoded(outcome)) == Ok::<Seq<u8>, Seq<char>>(b@),
            Err(e) => read_outcome(decoded(outcome)) == Err::<Seq<u8>, Seq<char>>(e@),
        },
{
    match outcome {
        Ok(b) => Ok(b),
        Err(e) => Err(e.message()),
    }
}

} // verus!
