//! Composite keys and stored values.
//!
//! Every record of a block lives under a physical key that starts with the
//! block's hash (state columns) or with the block's number (per-extrinsic
//! columns), so that all records of one block form one contiguous range of
//! keys and can be found again by their common prefix.

use vstd::bytes::*;
use vstd::prelude::*;

verus! {

/// The byte that stands between the parts of a composite key.
pub const SEPARATOR: u8 = 124u8;

/// Width of a block hash in bytes.
pub const HASH_LEN: usize = 32;

/// First byte of a stored state value that marks an explicit deletion.
pub const TAG_DELETED: u8 = 0u8;

/// First byte of a stored state value that is followed by the value's bytes.
pub const TAG_PRESENT: u8 = 1u8;

/// A block hash.
pub type BlockHash = [u8; 32];

/// Physical key of a top-level state entry: `hash ++ SEPARATOR ++ key`.
pub open spec fn state_key(hash: Seq<u8>, key: Seq<u8>) -> Seq<u8> {
    hash.push(SEPARATOR) + key
}

/// Common prefix of all entries of one child under one block:
/// `hash ++ SEPARATOR ++ child`.
pub open spec fn child_prefix(hash: Seq<u8>, child: Seq<u8>) -> Seq<u8> {
    hash.push(SEPARATOR) + child
}

/// The start that all entries of one child under one block share, and no
/// entry of another child whose id only begins with this one's:
/// `hash ++ SEPARATOR ++ child ++ SEPARATOR`.
pub open spec fn child_scan(hash: Seq<u8>, child: Seq<u8>) -> Seq<u8> {
    child_prefix(hash, child).push(SEPARATOR)
}

/// Physical key of a child state entry:
/// `hash ++ SEPARATOR ++ child ++ SEPARATOR ++ key`.
pub open spec fn child_key(hash: Seq<u8>, child: Seq<u8>, key: Seq<u8>) -> Seq<u8> {
    child_prefix(hash, child).push(SEPARATOR) + key
}

/// Physical key of a per-extrinsic record:
/// `number (8 bytes, little endian) ++ SEPARATOR ++ index (4 bytes, little endian)`.
pub open spec fn indexed_key(number: u64, index: u32) -> Seq<u8> {
    spec_u64_to_le_bytes(number).push(SEPARATOR) + spec_u32_to_le_bytes(index)
}

/// The logical key inside a physical key whose grouping prefix is
/// `prefix_len` bytes long, or `None` where the separator is not at its
/// place.
pub open spec fn logical_key(physical: Seq<u8>, prefix_len: nat) -> Option<Seq<u8>> {
    if physical.len() > prefix_len && physical[prefix_len as int] == SEPARATOR {
        Some(physical.subrange(prefix_len as int + 1, physical.len() as int))
    } else {
        None
    }
}

/// What is stored for a staged value: a tag byte, then the bytes of a
/// present value. A deletion and a present value never share an encoding.
pub open spec fn encode_value(value: Option<Seq<u8>>) -> Seq<u8> {
    match value {
        Some(bytes) => seq![TAG_PRESENT] + bytes,
        None => seq![TAG_DELETED],
    }
}

/// The staged value that a stored byte string stands for: `Some(None)` for
/// a deletion, `Some(Some(..))` for a present value, `None` where the bytes
/// are no encoding at all.
pub open spec fn decode_value(stored: Seq<u8>) -> Option<Option<Seq<u8>>> {
    if stored.len() >= 1 && stored[0] == TAG_PRESENT {
        Some(Some(stored.subrange(1, stored.len() as int)))
    } else if stored.len() == 1 && stored[0] == TAG_DELETED {
        Some(None)
    } else {
        None
    }
}

/// The view of an optional byte string.
pub open spec fn opt_view(value: Option<Vec<u8>>) -> Option<Seq<u8>> {
    match value {
        Some(bytes) => Some(bytes@),
        None => None,
    }
}

/// The view of an optional byte slice.
pub open spec fn opt_slice_view(value: Option<&[u8]>) -> Option<Seq<u8>> {
    match value {
        Some(bytes) => Some(bytes@),
        None => None,
    }
}

/// Appends a copy of `src` to `dst`.
pub fn append_bytes(dst: &mut Vec<u8>, src: &[u8])
    ensures
        final(dst)@ == old(dst)@ + src@,
{
    let mut i: usize = 0;
    while i < src.len()
        invariant
            i <= src@.len(),
            dst@ == old(dst)@ + src@.subrange(0, i as int),
        decreases src@.len() - i,
    {
        dst.push(src[i]);
        i += 1;
        assert(dst@ == old(dst)@ + src@.subrange(0, i as int));
    }
    assert(src@.subrange(0, src@.len() as int) == src@);
}

/// Composes the physical key of a top-level state entry.
pub fn real_key(hash: &BlockHash, key: &[u8]) -> (k: Vec<u8>)
    ensures
        k@ == state_key(hash@, key@),
{
    let mut k: Vec<u8> = Vec::new();
    append_bytes(&mut k, hash.as_slice());
    k.push(SEPARATOR);
    append_bytes(&mut k, key);
    k
}

/// Composes the prefix shared by all entries of `child` under `hash`.
pub fn real_child_prefix(hash: &BlockHash, child: &[u8]) -> (k: Vec<u8>)
    ensures
        k@ == child_prefix(hash@, child@),
{
    let mut k: Vec<u8> = Vec::new();
    append_bytes(&mut k, hash.as_slice());
    k.push(SEPARATOR);
    append_bytes(&mut k, child);
    k
}

/// Composes the start shared by all entries of `child` under `hash`, with
/// the separator behind the child id.
pub fn real_child_scan(hash: &BlockHash, child: &[u8]) -> (k: Vec<u8>)
    ensures
        k@ == child_scan(hash@, child@),
{
    let mut k: Vec<u8> = real_child_prefix(hash, child);
    k.push(SEPARATOR);
    k
}

/// Composes the physical key of a child state entry.
pub fn real_child_key(hash: &BlockHash, child: &[u8], key: &[u8]) -> (k: Vec<u8>)
    ensures
        k@ == child_key(hash@, child@, key@),
{
    let mut k: Vec<u8> = real_child_prefix(hash, child);
    k.push(SEPARATOR);
    append_bytes(&mut k, key);
    k
}

/// Composes the prefix shared by all child entries of a block:
/// `hash ++ SEPARATOR`.
pub fn real_children_prefix(hash: &BlockHash) -> (k: Vec<u8>)
    ensures
        k@ == hash@.push(SEPARATOR),
{
    let mut k: Vec<u8> = Vec::new();
    append_bytes(&mut k, hash.as_slice());
    k.push(SEPARATOR);
    k
}

/// Composes the physical key of a per-extrinsic record.
pub fn tracing_key(number: u64, index: u32) -> (k: Vec<u8>)
    ensures
        k@ == indexed_key(number, index),
{
    let mut k: Vec<u8> = u64_to_le_bytes(number);
    k.push(SEPARATOR);
    let second: Vec<u8> = u32_to_le_bytes(index);
    append_bytes(&mut k, second.as_slice());
    k
}

/// Strips the grouping prefix of `prefix_len` bytes and the separator from a
/// physical key. `None` where the separator is not at its place.
pub fn strip_prefix(physical: &[u8], prefix_len: usize) -> (k: Option<Vec<u8>>)
    ensures
        opt_view(k) == logical_key(physical@, prefix_len as nat),
{
    if physical.len() > prefix_len && physical[prefix_len] == SEPARATOR {
        let mut k: Vec<u8> = Vec::new();
        let rest: &[u8] = vstd::slice::slice_subrange(physical, prefix_len + 1, physical.len());
        append_bytes(&mut k, rest);
        Some(k)
    } else {
        None
    }
}

/// Encodes a staged value for storage.
pub fn encode_stored(value: Option<&[u8]>) -> (stored: Vec<u8>)
    ensures
        stored@ == encode_value(opt_slice_view(value)),
{
    let mut stored: Vec<u8> = Vec::new();
    match value {
        Some(bytes) => {
            stored.push(TAG_PRESENT);
            append_bytes(&mut stored, bytes);
        },
        None => {
            stored.push(TAG_DELETED);
        },
    }
    stored
}

/// Decodes a stored byte string. The outer `None` says that the bytes are no
/// encoding of a staged value.
pub fn decode_stored(stored: &[u8]) -> (value: Option<Option<Vec<u8>>>)
    ensures
        value is Some <==> decode_value(stored@) is Some,
        value is Some ==> opt_view(value->Some_0) == decode_value(stored@)->Some_0,
{
    if stored.len() >= 1 && stored[0] == TAG_PRESENT {
        let mut bytes: Vec<u8> = Vec::new();
        let rest: &[u8] = vstd::slice::slice_subrange(stored, 1, stored.len());
        append_bytes(&mut bytes, rest);
        Some(Some(bytes))
    } else if stored.len() == 1 && stored[0] == TAG_DELETED {
        Some(None)
    } else {
        None
    }
}

/// Decoding undoes encoding, for every staged value.
pub proof fn lemma_decode_encode(value: Option<Seq<u8>>)
    ensures
        decode_value(encode_value(value)) == Some(value),
{
    match value {
        Some(bytes) => {
            let stored = encode_value(value);
            assert(stored.subrange(1, stored.len() as int) == bytes);
        },
        None => {},
    }
}

/// Stripping the hash undoes the composition of a state key.
pub proof fn lemma_state_key_round_trip(hash: Seq<u8>, key: Seq<u8>)
    ensures
        logical_key(state_key(hash, key), hash.len()) == Some(key),
        hash.is_prefix_of(state_key(hash, key)),
{
    let k = state_key(hash, key);
    assert(k.subrange(hash.len() as int + 1, k.len() as int) == key);
    assert(k.subrange(0, hash.len() as int) == hash);
}

/// Stripping the hash and the child undoes the composition of a child key.
pub proof fn lemma_child_key_round_trip(hash: Seq<u8>, child: Seq<u8>, key: Seq<u8>)
    ensures
        logical_key(child_key(hash, child, key), child_prefix(hash, child).len()) == Some(key),
        child_prefix(hash, child).is_prefix_of(child_key(hash, child, key)),
        hash.push(SEPARATOR).is_prefix_of(child_key(hash, child, key)),
        child_key(hash, child, key) == state_key(hash, child.push(SEPARATOR) + key),
{
    let p = child_prefix(hash, child);
    let k = child_key(hash, child, key);
    assert(k.subrange(p.len() as int + 1, k.len() as int) == key);
    assert(k.subrange(0, p.len() as int) == p);
    assert(k.subrange(0, hash.len() as int + 1) == hash.push(SEPARATOR));
    assert(k == state_key(hash, child.push(SEPARATOR) + key));
}

/// Two state keys under hashes of one width are equal only if both the
/// hashes and the keys are.
pub proof fn lemma_state_key_injective(h1: Seq<u8>, k1: Seq<u8>, h2: Seq<u8>, k2: Seq<u8>)
    requires
        h1.len() == h2.len(),
        state_key(h1, k1) == state_key(h2, k2),
    ensures
        h1 == h2,
        k1 == k2,
{
    let a = state_key(h1, k1);
    let b = state_key(h2, k2);
    assert(a.subrange(0, h1.len() as int) == h1);
    assert(b.subrange(0, h2.len() as int) == h2);
    assert(a.subrange(h1.len() as int + 1, a.len() as int) == k1);
    assert(b.subrange(h2.len() as int + 1, b.len() as int) == k2);
}

/// A key that starts with one hash starts with no other hash of that width.
pub proof fn lemma_hash_prefix_unique(h1: Seq<u8>, h2: Seq<u8>, physical: Seq<u8>)
    requires
        h1.len() == h2.len(),
        h1.is_prefix_of(physical),
        h2.is_prefix_of(physical),
    ensures
        h1 == h2,
{
    assert(physical.subrange(0, h1.len() as int) == h1);
    assert(physical.subrange(0, h2.len() as int) == h2);
}

/// The key of a per-extrinsic record is 13 bytes long, starts with the
/// number's bytes, and determines both the number and the index.
pub proof fn lemma_indexed_key(number: u64, index: u32)
    ensures
        indexed_key(number, index).len() == 13,
        spec_u64_to_le_bytes(number).is_prefix_of(indexed_key(number, index)),
        spec_u64_from_le_bytes(indexed_key(number, index).subrange(0, 8)) == number,
        spec_u32_from_le_bytes(indexed_key(number, index).subrange(9, 13)) == index,
{
    lemma_auto_spec_u64_to_from_le_bytes();
    lemma_auto_spec_u32_to_from_le_bytes();
    let k = indexed_key(number, index);
    assert(k.subrange(0, 8) == spec_u64_to_le_bytes(number));
    assert(k.subrange(9, 13) == spec_u32_to_le_bytes(index));
}

/// Two per-extrinsic keys are equal only if both the numbers and the indices
/// are.
pub proof fn lemma_indexed_key_injective(n1: u64, i1: u32, n2: u64, i2: u32)
    requires
        indexed_key(n1, i1) == indexed_key(n2, i2),
    ensures
        n1 == n2,
        i1 == i2,
{
    lemma_indexed_key(n1, i1);
    lemma_indexed_key(n2, i2);
}

/// The bytes of two different numbers differ, and neither key range holds a
/// key of the other.
pub proof fn lemma_number_prefix_unique(n1: u64, n2: u64, physical: Seq<u8>)
    requires
        spec_u64_to_le_bytes(n1).is_prefix_of(physical),
        spec_u64_to_le_bytes(n2).is_prefix_of(physical),
    ensures
        n1 == n2,
{
    lemma_auto_spec_u64_to_from_le_bytes();
    assert(physical.subrange(0, 8) == spec_u64_to_le_bytes(n1));
    assert(physical.subrange(0, 8) == spec_u64_to_le_bytes(n2));
}

} // verus!
