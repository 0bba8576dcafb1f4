//! What the store's contents mean: the entries of a block as its readers see
//! them, stated over the contents of the columns.

use crate::codec::{
    child_prefix, child_scan, decode_value, logical_key, opt_view, state_key, SEPARATOR,
};
use crate::columns;
use crate::db::{apply_op, apply_ops, bytes_lt, is_scan, keys_under, lookup, Contents, WriteOp};
use crate::error::StateKvError;
use crate::text::{opt_text_view, text_of};
use vstd::bytes::{spec_u64_from_le_bytes, spec_u64_to_le_bytes};
use vstd::prelude::*;

verus! {

/// What a point read makes of the stored bytes under a key: `Some(None)`
/// where nothing is stored or a deletion is, `Some(Some(..))` for a present
/// value, `None` where the stored bytes are no encoding.
pub open spec fn point_read(stored: Option<Seq<u8>>) -> Option<Option<Seq<u8>>> {
    match stored {
        None => Some(None),
        Some(bytes) => match decode_value(bytes) {
            Some(Some(value)) => Some(Some(value)),
            Some(None) => Some(None),
            None => None,
        },
    }
}

/// Whether `r` is a result that a point read may give for what is stored.
pub open spec fn read_result(stored: Option<Seq<u8>>, r: Result<Option<Vec<u8>>, StateKvError>) -> bool {
    match r {
        Ok(value) => point_read(stored) == Some(opt_view(value)),
        Err(StateKvError::Corrupted) => point_read(stored) is None,
        Err(StateKvError::Database(_)) => true,
        Err(_) => false,
    }
}

/// Whether `r` is a result that a read of a stored text may give.
pub open spec fn text_result(stored: Option<Seq<u8>>, r: Result<Option<String>, StateKvError>) -> bool {
    match r {
        Ok(text) => opt_text_view(text) == match stored {
            Some(bytes) => Some(text_of(bytes)),
            None => None,
        },
        Err(StateKvError::Database(_)) => true,
        Err(_) => false,
    }
}

/// Key and value of each listed entry, as byte sequences.
pub open spec fn entries_view(list: Seq<(Vec<u8>, Option<Vec<u8>>)>) -> Seq<(Seq<u8>, Option<Seq<u8>>)> {
    Seq::new(list.len(), |i: int| (list[i].0@, opt_view(list[i].1)))
}

/// Whether column `col` holds no key that starts with `scan`.
pub open spec fn none_under(c: Contents, col: u32, scan: Seq<u8>) -> bool {
    forall|k: Seq<u8>| #[trigger] c.contains_key((col, k)) ==> !scan.is_prefix_of(k)
}

/// Whether `scan` is a start under which the entries of the group `prefix`
/// are looked for: the prefix itself, or the prefix and the separator.
pub open spec fn scans(scan: Seq<u8>, prefix: Seq<u8>) -> bool {
    scan == prefix || scan == prefix.push(SEPARATOR)
}

/// Whether every entry of column `col` under `scan` has the separator behind
/// `prefix` and holds an encoded value.
pub open spec fn well_formed_under(c: Contents, col: u32, scan: Seq<u8>, prefix: Seq<u8>) -> bool {
    forall|k: Seq<u8>|
        #[trigger] c.contains_key((col, k)) && scan.is_prefix_of(k) ==> {
            &&& logical_key(k, prefix.len()) is Some
            &&& decode_value(c[(col, k)]) is Some
        }
}

/// Whether `list` lists the entries of column `col` under `scan`: each
/// listed pair is the logical key behind `prefix` and the separator, and the
/// staged value, of an entry; each entry under `scan` is listed; and the
/// logical keys ascend.
pub open spec fn is_listing(
    c: Contents,
    col: u32,
    scan: Seq<u8>,
    prefix: Seq<u8>,
    list: Seq<(Seq<u8>, Option<Seq<u8>>)>,
) -> bool {
    &&& forall|i: int|
        0 <= i < list.len() ==> {
            &&& c.contains_key((col, state_key(prefix, (#[trigger] list[i]).0)))
            &&& decode_value(c[(col, state_key(prefix, list[i].0))]) == Some(list[i].1)
        }
    &&& forall|k: Seq<u8>|
        #[trigger] c.contains_key((col, k)) && scan.is_prefix_of(k) ==> exists|i: int|
            0 <= i < list.len() && k == state_key(prefix, (#[trigger] list[i]).0)
    &&& forall|i: int, j: int|
        0 <= i < j < list.len() ==> bytes_lt((#[trigger] list[i]).0, (#[trigger] list[j]).0)
}

/// Whether `r` is the result of listing the entries of column `col` under
/// `scan`, their logical keys standing behind `prefix` and the separator:
/// `None` where there are none, the listing where all of them are well
/// formed, and an error where one is not.
pub open spec fn listing_result(
    c: Contents,
    col: u32,
    scan: Seq<u8>,
    prefix: Seq<u8>,
    r: Result<Option<Vec<(Vec<u8>, Option<Vec<u8>>)>>, StateKvError>,
) -> bool {
    match r {
        Ok(None) => none_under(c, col, scan),
        Ok(Some(list)) => list@.len() > 0 && is_listing(c, col, scan, prefix, entries_view(list@)),
        Err(StateKvError::Corrupted) => !well_formed_under(c, col, scan, prefix),
        Err(_) => false,
    }
}

/// Whether `r` is the result of listing the top-level entries of block
/// `hash`. An entry under the hash without the separator behind it is
/// malformed.
pub open spec fn block_listing(
    c: Contents,
    hash: Seq<u8>,
    r: Result<Option<Vec<(Vec<u8>, Option<Vec<u8>>)>>, StateKvError>,
) -> bool {
    listing_result(c, columns::STATE_KV, hash, hash, r)
}

/// Whether `r` is the result of listing the entries of `child` in block
/// `hash`: the entries under the hash, the separator, the child id and the
/// separator. The entries of a child whose id only begins with `child` are
/// none of them.
pub open spec fn child_listing(
    c: Contents,
    hash: Seq<u8>,
    child: Seq<u8>,
    r: Result<Option<Vec<(Vec<u8>, Option<Vec<u8>>)>>, StateKvError>,
) -> bool {
    listing_result(
        c,
        columns::STATE_CHILD_KV,
        child_scan(hash, child),
        child_prefix(hash, child),
        r,
    )
}

/// The stored hash of block `number`, if one is recorded.
pub open spec fn hash_of(c: Contents, number: u64) -> Option<Seq<u8>> {
    lookup(c, columns::NUMBER_TO_HASH, spec_u64_to_le_bytes(number))
}

/// The stored number of block `hash`, if one is recorded and is 8 bytes
/// long.
pub open spec fn number_of(c: Contents, hash: Seq<u8>) -> Option<u64> {
    match lookup(c, columns::HASH_TO_NUMBER, hash) {
        Some(bytes) => if bytes.len() == 8 {
            Some(spec_u64_from_le_bytes(bytes))
        } else {
            None
        },
        None => None,
    }
}

/// A key under a prefix is the prefix, the separator and the logical key.
pub proof fn lemma_rebuild(prefix: Seq<u8>, physical: Seq<u8>, logical: Seq<u8>)
    requires
        prefix.is_prefix_of(physical),
        logical_key(physical, prefix.len()) == Some(logical),
    ensures
        physical == state_key(prefix, logical),
{
    assert(physical =~= state_key(prefix, logical));
}

/// Two keys with a common start are ordered as what follows it.
pub proof fn lemma_bytes_lt_common_prefix(p: Seq<u8>, a: Seq<u8>, b: Seq<u8>)
    ensures
        bytes_lt(p + a, p + b) == bytes_lt(a, b),
    decreases p.len(),
{
    if p.len() == 0 {
        assert(p + a == a);
        assert(p + b == b);
    } else {
        assert((p + a).drop_first() == p.drop_first() + a);
        assert((p + b).drop_first() == p.drop_first() + b);
        lemma_bytes_lt_common_prefix(p.drop_first(), a, b);
    }
}

/// No key comes before itself.
pub proof fn lemma_bytes_lt_irreflexive(a: Seq<u8>)
    ensures
        !bytes_lt(a, a),
    decreases a.len(),
{
    if a.len() > 0 {
        lemma_bytes_lt_irreflexive(a.drop_first());
    }
}

/// A listing names each logical key once.
pub proof fn lemma_listing_keys_distinct(
    c: Contents,
    col: u32,
    scan: Seq<u8>,
    prefix: Seq<u8>,
    list: Seq<(Seq<u8>, Option<Seq<u8>>)>,
    i: int,
    j: int,
)
    requires
        is_listing(c, col, scan, prefix, list),
        0 <= i < list.len(),
        0 <= j < list.len(),
        list[i].0 == list[j].0,
    ensures
        i == j,
{
    lemma_bytes_lt_irreflexive(list[i].0);
}

/// A listing shows that all entries under the scan are well formed.
pub proof fn lemma_listing_well_formed(
    c: Contents,
    col: u32,
    scan: Seq<u8>,
    prefix: Seq<u8>,
    list: Seq<(Seq<u8>, Option<Seq<u8>>)>,
)
    requires
        is_listing(c, col, scan, prefix, list),
    ensures
        well_formed_under(c, col, scan, prefix),
{
    assert forall|k: Seq<u8>| #[trigger]
        c.contains_key((col, k)) && scan.is_prefix_of(k) implies logical_key(k, prefix.len()) is Some
        && decode_value(c[(col, k)]) is Some by {
        let i = choose|i: int| 0 <= i < list.len() && k == state_key(prefix, (#[trigger] list[i]).0);
        crate::codec::lemma_state_key_round_trip(prefix, list[i].0);
    }
}

/// A key under a scan of a group is under the group.
pub proof fn lemma_scan_under_prefix(scan: Seq<u8>, prefix: Seq<u8>, k: Seq<u8>)
    requires
        scans(scan, prefix),
        scan.is_prefix_of(k),
    ensures
        prefix.is_prefix_of(k),
        scan == prefix.push(SEPARATOR) ==> logical_key(k, prefix.len()) is Some,
{
    if scan == prefix.push(SEPARATOR) {
        assert(k.subrange(0, scan.len() as int) == scan);
        assert(k[prefix.len() as int] == scan[prefix.len() as int]);
        assert(k.subrange(0, prefix.len() as int) =~= scan.subrange(0, prefix.len() as int));
        assert(scan.subrange(0, prefix.len() as int) =~= prefix);
    }
}

/// The key of an entry of a group lies under every scan of the group.
pub proof fn lemma_state_key_under_scan(scan: Seq<u8>, prefix: Seq<u8>, logical: Seq<u8>)
    requires
        scans(scan, prefix),
    ensures
        scan.is_prefix_of(state_key(prefix, logical)),
{
    let k = state_key(prefix, logical);
    assert(k.subrange(0, prefix.len() as int) =~= prefix);
    assert(k.subrange(0, prefix.len() as int + 1) =~= prefix.push(SEPARATOR));
}

/// Of two keys at most one comes before the other.
pub proof fn lemma_bytes_lt_asymmetric(a: Seq<u8>, b: Seq<u8>)
    requires
        bytes_lt(a, b),
    ensures
        !bytes_lt(b, a),
    decreases a.len(),
{
    if a.len() > 0 && b.len() > 0 && a[0] == b[0] {
        lemma_bytes_lt_asymmetric(a.drop_first(), b.drop_first());
    }
}

/// Every entry of one listing is an entry of every other listing of the
/// same scan.
pub proof fn lemma_listing_member(
    c: Contents,
    col: u32,
    scan: Seq<u8>,
    prefix: Seq<u8>,
    l1: Seq<(Seq<u8>, Option<Seq<u8>>)>,
    l2: Seq<(Seq<u8>, Option<Seq<u8>>)>,
    i: int,
) -> (j: int)
    requires
        scans(scan, prefix),
        is_listing(c, col, scan, prefix, l1),
        is_listing(c, col, scan, prefix, l2),
        0 <= i < l1.len(),
    ensures
        0 <= j < l2.len(),
        l2[j] == l1[i],
{
    let k = state_key(prefix, l1[i].0);
    lemma_state_key_under_scan(scan, prefix, l1[i].0);
    assert(c.contains_key((col, k)) && scan.is_prefix_of(k));
    let j = choose|j: int| 0 <= j < l2.len() && k == state_key(prefix, (#[trigger] l2[j]).0);
    crate::codec::lemma_state_key_injective(prefix, l1[i].0, prefix, l2[j].0);
    assert(decode_value(c[(col, k)]) == Some(l2[j].1));
    j
}

/// Two listings of the same scan agree on their first `n` entries.
pub proof fn lemma_listings_agree(
    c: Contents,
    col: u32,
    scan: Seq<u8>,
    prefix: Seq<u8>,
    l1: Seq<(Seq<u8>, Option<Seq<u8>>)>,
    l2: Seq<(Seq<u8>, Option<Seq<u8>>)>,
    n: int,
)
    requires
        scans(scan, prefix),
        is_listing(c, col, scan, prefix, l1),
        is_listing(c, col, scan, prefix, l2),
        0 <= n <= l1.len(),
        n <= l2.len(),
    ensures
        forall|i: int| 0 <= i < n ==> l1[i] == l2[i],
    decreases n,
{
    if n > 0 {
        let m = n - 1;
        lemma_listings_agree(c, col, scan, prefix, l1, l2, m);
        let j = lemma_listing_member(c, col, scan, prefix, l1, l2, m);
        let i = lemma_listing_member(c, col, scan, prefix, l2, l1, m);
        if j < m {
            assert(l1[j] == l2[j]);
            lemma_listing_keys_distinct(c, col, scan, prefix, l1, j, m);
        }
        if i < m {
            assert(l1[i] == l2[i]);
            lemma_listing_keys_distinct(c, col, scan, prefix, l2, i, m);
        }
        if j > m {
            assert(bytes_lt(l2[m].0, l2[j].0));
            if i > m {
                assert(bytes_lt(l1[m].0, l1[i].0));
                lemma_bytes_lt_asymmetric(l2[m].0, l2[j].0);
            } else {
                lemma_listing_keys_distinct(c, col, scan, prefix, l2, j, m);
            }
        }
    }
}

/// A listing is determined by what the store holds: two listings of the
/// same scan are the same.
pub proof fn lemma_listing_unique(
    c: Contents,
    col: u32,
    scan: Seq<u8>,
    prefix: Seq<u8>,
    l1: Seq<(Seq<u8>, Option<Seq<u8>>)>,
    l2: Seq<(Seq<u8>, Option<Seq<u8>>)>,
)
    requires
        scans(scan, prefix),
        is_listing(c, col, scan, prefix, l1),
        is_listing(c, col, scan, prefix, l2),
    ensures
        l1 == l2,
{
    if l1.len() < l2.len() {
        let n = l1.len() as int;
        lemma_listings_agree(c, col, scan, prefix, l1, l2, n);
        let i = lemma_listing_member(c, col, scan, prefix, l2, l1, n);
        assert(l1[i] == l2[i]);
        lemma_listing_keys_distinct(c, col, scan, prefix, l2, i, n);
    } else if l2.len() < l1.len() {
        let n = l2.len() as int;
        lemma_listings_agree(c, col, scan, prefix, l1, l2, n);
        let j = lemma_listing_member(c, col, scan, prefix, l1, l2, n);
        assert(l1[j] == l2[j]);
        lemma_listing_keys_distinct(c, col, scan, prefix, l1, j, n);
    } else {
        lemma_listings_agree(c, col, scan, prefix, l1, l2, l1.len() as int);
        assert(l1 =~= l2);
    }
}

/// Whether a batch holds the removal of the one key `k`.
pub open spec fn removes_key(ops: Seq<WriteOp>, k: (u32, Seq<u8>)) -> bool {
    exists|j: int| 0 <= j < ops.len() && (#[trigger] ops[j]) == (WriteOp::Delete { col: k.0, key: k.1 })
}

/// A batch of removals of single keys takes those keys away and leaves
/// every other entry as it was.
pub proof fn lemma_apply_removals(c: Contents, ops: Seq<WriteOp>)
    requires
        forall|j: int| 0 <= j < ops.len() ==> (#[trigger] ops[j]) is Delete,
    ensures
        forall|k: (u32, Seq<u8>)| #[trigger]
            apply_ops(c, ops).contains_key(k) <==> c.contains_key(k) && !removes_key(ops, k),
        forall|k: (u32, Seq<u8>)| #[trigger]
            apply_ops(c, ops).contains_key(k) ==> apply_ops(c, ops)[k] == c[k],
    decreases ops.len(),
{
    if ops.len() > 0 {
        let front = ops.drop_last();
        lemma_apply_removals(c, front);
        assert forall|k: (u32, Seq<u8>)| #[trigger]
            removes_key(ops, k) <==> removes_key(front, k) || ops.last() == (WriteOp::Delete {
                col: k.0,
                key: k.1,
            }) by {
            if removes_key(front, k) {
                let j = choose|j: int|
                    0 <= j < front.len() && (#[trigger] front[j]) == (WriteOp::Delete {
                        col: k.0,
                        key: k.1,
                    });
                assert(ops[j] == front[j]);
            }
            if removes_key(ops, k) {
                let j = choose|j: int|
                    0 <= j < ops.len() && (#[trigger] ops[j]) == (WriteOp::Delete {
                        col: k.0,
                        key: k.1,
                    });
                if j < front.len() {
                    assert(front[j] == ops[j]);
                }
            }
            if ops.last() == (WriteOp::Delete { col: k.0, key: k.1 }) {
                assert(ops[ops.len() - 1] == ops.last());
            }
        }
        let mid = apply_ops(c, front);
        let gone = (ops.last().col(), ops.last().key());
        assert(ops.last() == (WriteOp::Delete { col: gone.0, key: gone.1 }));
        assert(apply_ops(c, ops) == mid.remove(gone));
        assert forall|k: (u32, Seq<u8>)| #[trigger]
            apply_ops(c, ops).contains_key(k) <==> c.contains_key(k) && !removes_key(ops, k) by {
            assert(mid.contains_key(k) <==> c.contains_key(k) && !removes_key(front, k));
            assert(mid.remove(gone).contains_key(k) <==> mid.contains_key(k) && k != gone);
            assert(removes_key(ops, k) <==> removes_key(front, k) || k == gone);
        }
        assert forall|k: (u32, Seq<u8>)| #[trigger]
            apply_ops(c, ops).contains_key(k) implies apply_ops(c, ops)[k] == c[k] by {
            assert(mid.contains_key(k));
        }
    }
}

/// Removing one by one the keys that a scan under a prefix found leaves
/// what a deletion under the prefix leaves.
pub proof fn lemma_scan_removals(
    c: Contents,
    col: u32,
    prefix: Seq<u8>,
    items: Seq<(Seq<u8>, Seq<u8>)>,
    ops: Seq<WriteOp>,
)
    requires
        is_scan(c, col, prefix, items),
        ops.len() == items.len(),
        forall|j: int|
            0 <= j < ops.len() ==> (#[trigger] ops[j]) == (WriteOp::Delete { col: col, key: items[j].0 }),
    ensures
        apply_ops(c, ops) == apply_op(c, WriteOp::DeletePrefix { col: col, prefix: prefix }),
{
    lemma_apply_removals(c, ops);
    let left = apply_ops(c, ops);
    let right = c.remove_keys(keys_under(col, prefix));
    assert forall|k: (u32, Seq<u8>)| left.contains_key(k) <==> right.contains_key(k) by {
        if c.contains_key(k) {
            if removes_key(ops, k) {
                let j = choose|j: int|
                    0 <= j < ops.len() && (#[trigger] ops[j]) == (WriteOp::Delete {
                        col: k.0,
                        key: k.1,
                    });
                assert(prefix.is_prefix_of(items[j].0));
            }
            if k.0 == col && prefix.is_prefix_of(k.1) {
                assert(k == (col, k.1));
                assert(c.contains_key((col, k.1)));
                let i = choose|i: int| 0 <= i < items.len() && (#[trigger] items[i]).0 == k.1;
                assert(ops[i] == (WriteOp::Delete { col: k.0, key: k.1 }));
            }
        }
    }
    assert(left =~= right);
}

} // verus!
