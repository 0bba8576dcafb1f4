//! Bytes as hexadecimal text, through the `hex` crate.

use crate::block_tracing::parser::{hex_value, is_hex_digit};
use vstd::prelude::*;

verus! {

/// The lower-case hexadecimal digit for a number below 16.
pub open spec fn hex_char(nibble: int) -> char {
    if nibble < 10 {
        (48 + nibble) as char
    } else {
        (87 + nibble) as char
    }
}

/// Bytes as hexadecimal text: two lower-case digits for each byte, the
/// high one first.
pub open spec fn hex_text(data: Seq<u8>) -> Seq<char> {
    Seq::new(
        2 * data.len(),
        |i: int|
            if i % 2 == 0 {
                hex_char(data[i / 2] as int / 16)
            } else {
                hex_char(data[i / 2] as int % 16)
            },
    )
}

/// Why a text is no hexadecimal text of bytes.
#[derive(Clone, Copy, PartialEq, Eq, Debug)]
pub enum HexError {
    /// A byte of the text that is no hexadecimal digit, as a character, and
    /// where it stands.
    InvalidHexCharacter { c: char, index: usize },
    /// The text has an odd number of digits.
    OddLength,
    /// The text has not the length that was asked for.
    InvalidStringLength,
}

/// Whether `index` is the place of the first byte of `text` that is no
/// hexadecimal digit.
pub open spec fn first_invalid(text: Seq<u8>, index: int) -> bool {
    &&& 0 <= index < text.len()
    &&& !is_hex_digit(text[index])
    &&& forall|j: int| 0 <= j < index ==> is_hex_digit(#[trigger] text[j])
}

/// Whether `r` is what decoding the hexadecimal text `text` gives: the
/// bytes, two digits each; for a text of odd length, that; else for a text
/// with a byte that is no digit, the first such byte and its place.
pub open spec fn decoded(text: Seq<u8>, r: Result<Vec<u8>, HexError>) -> bool {
    match r {
        Ok(bytes) => {
            &&& text.len() % 2 == 0
            &&& forall|j: int| 0 <= j < text.len() ==> is_hex_digit(#[trigger] text[j])
            &&& bytes@.len() * 2 == text.len()
            &&& forall|j: int|
                0 <= j < bytes@.len() ==> (#[trigger] bytes@[j]) == hex_value(text[2 * j]) * 16
                    + hex_value(text[2 * j + 1])
        },
        Err(HexError::OddLength) => text.len() % 2 != 0,
        Err(HexError::InvalidHexCharacter { c, index }) => {
            &&& text.len() % 2 == 0
            &&& first_invalid(text, index as int)
            &&& c == text[index as int] as char
        },
        Err(HexError::InvalidStringLength) => false,
    }
}

/// `hex::encode`: two lower-case hexadecimal digits for each byte, the high
/// one first.
#[verifier::external_body]
pub(crate) fn hex_encode(data: &[u8]) -> (text: String)
    ensures
        text@ == hex_text(data@),
{
    hex::encode(data)
}

/// `hex::decode`: the bytes that a text of hexadecimal digits spells, two
/// digits each, in either case. A text of odd length is refused as such,
/// else a text with a byte that is no digit is refused with the first such
/// byte and its place.
#[verifier::external_body]
pub(crate) fn hex_decode(text: &[u8]) -> (r: Result<Vec<u8>, HexError>)
    ensures
        decoded(text@, r),
{
    match hex::decode(text) {
        Ok(bytes) => Ok(bytes),
        Err(hex::FromHexError::InvalidHexCharacter { c, index }) => Err(
            HexError::InvalidHexCharacter { c, index },
        ),
        Err(hex::FromHexError::OddLength) => Err(HexError::OddLength),
        Err(hex::FromHexError::InvalidStringLength) => Err(HexError::InvalidStringLength),
    }
}

/// Bytes as hexadecimal text.
pub fn encode(data: &[u8]) -> (text: String)
    ensures
        text@ == hex_text(data@),
{
    hex_encode(data)
}

/// The bytes that a hexadecimal text spells.
pub fn decode(text: &[u8]) -> (r: Result<Vec<u8>, HexError>)
    ensures
        decoded(text@, r),
{
    hex_decode(text)
}

} // verus!
