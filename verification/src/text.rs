//! Text that is stored as bytes.

use crate::block_tracing::parser::{lemma_run_end, run, run_end, ByteClass};
use vstd::prelude::*;
use vstd::string::StringSliceAdditionalSpecFns;
use vstd::utf8::{
    decode_utf8, encode_utf8, encode_utf8_decode_utf8, encode_utf8_valid_utf8, is_char_boundary,
    is_char_boundary_iff_not_is_continuation_byte, is_continuation_byte, valid_utf8,
};

verus! {

/// The text that `String::from_utf8_lossy` makes of a byte string that is
/// not valid UTF-8.
pub uninterp spec fn lossy_text(bytes: Seq<u8>) -> Seq<char>;

/// The text that is read from stored bytes: the text that they encode where
/// they are valid UTF-8, else what lossy decoding makes of them.
pub open spec fn text_of(bytes: Seq<u8>) -> Seq<char> {
    if valid_utf8(bytes) {
        decode_utf8(bytes)
    } else {
        lossy_text(bytes)
    }
}

/// `String::from_utf8_lossy`, as an owned string: the text that the bytes
/// encode where they are valid UTF-8, and a text that depends on the bytes
/// alone where they are not.
#[verifier::external_body]
pub(crate) fn text_from_utf8_lossy(bytes: &[u8]) -> (text: String)
    ensures
        text@ == (if valid_utf8(bytes@) {
            decode_utf8(bytes@)
        } else {
            lossy_text(bytes@)
        }),
{
    String::from_utf8_lossy(bytes).to_string()
}

/// The view of an optional text.
pub open spec fn opt_text_view(text: Option<String>) -> Option<Seq<char>> {
    match text {
        Some(t) => Some(t@),
        None => None,
    }
}

/// A text is read back from its own bytes as it was.
pub proof fn lemma_text_round_trip(text: Seq<char>)
    ensures
        text_of(encode_utf8(text)) == text,
{
    encode_utf8_valid_utf8(text);
    encode_utf8_decode_utf8(text);
}

/// `,`, which stands between the parts of a list.
pub const COMMA: u8 = 44u8;

/// The bytes of each text.
pub open spec fn texts_bytes(texts: Seq<String>) -> Seq<Seq<u8>> {
    Seq::new(texts.len(), |i: int| encode_utf8(texts[i]@))
}

/// The bytes of each text.
pub open spec fn strs_bytes(texts: Seq<&str>) -> Seq<Seq<u8>> {
    Seq::new(texts.len(), |i: int| encode_utf8(texts[i]@))
}

/// The parts of a text between its commas.
pub open spec fn parts_of(bytes: Seq<u8>) -> Seq<Seq<u8>>
    decreases bytes.len(),
{
    let i = run_end(bytes, 0, ByteClass::Except(COMMA));
    if 0 <= i < bytes.len() {
        seq![bytes.subrange(0, i)] + parts_of(bytes.subrange(i + 1, bytes.len() as int))
    } else {
        seq![bytes]
    }
}

/// A byte of the first half of the byte values is no byte in the middle of
/// a character.
pub proof fn lemma_ascii_is_boundary(bytes: Seq<u8>, index: int)
    requires
        valid_utf8(bytes),
        0 <= index < bytes.len(),
        bytes[index] < 128,
    ensures
        is_char_boundary(bytes, index),
{
    let b = bytes[index];
    assert(!is_continuation_byte(b)) by (bit_vector)
        requires
            b < 128u8,
    ;
    is_char_boundary_iff_not_is_continuation_byte(bytes, index);
}

/// A character starts behind a byte of the first half of the byte values at
/// the front.
pub proof fn lemma_behind_ascii(bytes: Seq<u8>)
    requires
        valid_utf8(bytes),
        bytes.len() > 0,
        bytes[0] < 128,
    ensures
        is_char_boundary(bytes, 1),
{
    let b = bytes[0];
    assert(vstd::utf8::is_leading_byte_width_1(b)) by (bit_vector)
        requires
            b < 128u8,
    ;
    reveal_with_fuel(vstd::utf8::valid_utf8, 2);
    reveal_with_fuel(vstd::utf8::is_char_boundary, 2);
    assert(vstd::utf8::length_of_first_scalar(bytes) == 1);
    assert(valid_utf8(vstd::utf8::pop_first_scalar(bytes)));
}

/// Splits a text at the first byte `at`, which is a byte of the first half
/// of the byte values: what stands before it and what stands behind it.
/// `None` where the text does not hold the byte.
pub fn split_once_at(s: &str, at: u8) -> (r: Option<(&str, &str)>)
    requires
        at < 128,
    ensures
        ({
            let bytes = s.spec_bytes();
            let i = run_end(bytes, 0, ByteClass::Except(at));
            match r {
                Some((before, behind)) => {
                    &&& 0 <= i < bytes.len()
                    &&& before.spec_bytes() == bytes.subrange(0, i)
                    &&& behind.spec_bytes() == bytes.subrange(i + 1, bytes.len() as int)
                },
                None => i >= bytes.len(),
            }
        }),
{
    let bytes: &[u8] = s.as_bytes();
    let i: usize = run(bytes, 0, ByteClass::Except(at));
    proof {
        encode_utf8_valid_utf8(s@);
        lemma_run_end(bytes@, 0, ByteClass::Except(at));
    }
    if i < bytes.len() {
        proof {
            lemma_ascii_is_boundary(bytes@, i as int);
        }
        let (before, tail) = s.split_at(i);
        proof {
            encode_utf8_valid_utf8(tail@);
            assert(tail.spec_bytes()[0] == at);
            lemma_behind_ascii(tail.spec_bytes());
        }
        let (_, behind) = tail.split_at(1);
        assert(behind.spec_bytes() =~= bytes@.subrange(i + 1, bytes@.len() as int));
        Some((before, behind))
    } else {
        None
    }
}

/// Splits a text at its commas.
pub fn split_at_commas(s: &str) -> (parts: Vec<&str>)
    ensures
        strs_bytes(parts@) == parts_of(s.spec_bytes()),
        parts@.len() > 0,
{
    let ghost all = s.spec_bytes();
    let mut parts: Vec<&str> = Vec::new();
    let mut rest: &str = s;
    loop
        invariant
            all == s.spec_bytes(),
            parts_of(all) == strs_bytes(parts@) + parts_of(rest.spec_bytes()),
        decreases rest.spec_bytes().len(),
    {
        let ghost taken = strs_bytes(parts@);
        match split_once_at(rest, COMMA) {
            Some((part, next)) => {
                parts.push(part);
                proof {
                    assert(strs_bytes(parts@) =~= taken.push(part.spec_bytes()));
                    assert(parts_of(all) =~= strs_bytes(parts@) + parts_of(next.spec_bytes()));
                }
                rest = next;
            },
            None => {
                parts.push(rest);
                proof {
                    assert(strs_bytes(parts@) =~= taken.push(rest.spec_bytes()));
                    assert(parts_of(all) =~= strs_bytes(parts@));
                }
                return parts;
            },
        }
    }
}

} // verus!
