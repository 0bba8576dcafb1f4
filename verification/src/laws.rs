//! What holds of the store as a whole, proved over the contents of the
//! columns. Each statement speaks of the same functions that the contracts
//! of the engine speak of.

use crate::codec::{
    child_key, child_prefix, child_scan, decode_value, encode_value, lemma_child_key_round_trip,
    lemma_decode_encode, lemma_hash_prefix_unique, lemma_number_prefix_unique,
    lemma_state_key_injective, lemma_state_key_round_trip, state_key, SEPARATOR,
};
use crate::columns;
use crate::db::{apply_op, apply_ops, keys_under, lemma_apply_push, lookup, Contents, WriteOp};
use crate::engine::{index_ops, pair_ops, revert_ops, reverted, stale_ops};
use crate::error::StateKvError;
use crate::model::{
    hash_of, is_listing, lemma_state_key_under_scan, listing_result, none_under, number_of,
    point_read, scans, well_formed_under,
};
use crate::transaction::{all_staged_under, set_child_op, set_op, staged_under};
use vstd::bytes::{lemma_auto_spec_u64_to_from_le_bytes, spec_u64_to_le_bytes};
use vstd::prelude::*;

verus! {

/// Whether two stores hold the same entries of column `col` under `prefix`.
pub open spec fn same_under(c1: Contents, c2: Contents, col: u32, prefix: Seq<u8>) -> bool {
    forall|k: Seq<u8>| #[trigger] prefix.is_prefix_of(k) ==> lookup(c1, col, k) == lookup(c2, col, k)
}

/// Whether block `hash` and `number` are recorded for each other.
pub open spec fn indexed(c: Contents, hash: Seq<u8>, number: u64) -> bool {
    &&& number_of(c, hash) == Some(number)
    &&& hash_of(c, number) == Some(hash)
}

/// Whether reverting block `number` with hash `hash` removes the entry under
/// `key` in column `col`.
pub open spec fn revert_removes(hash: Seq<u8>, number: u64, col: u32, key: Seq<u8>) -> bool {
    ||| col == columns::STATE_KV && hash.is_prefix_of(key)
    ||| col == columns::STATE_CHILD_KV && hash.push(SEPARATOR).is_prefix_of(key)
    ||| col == columns::EXTRINSIC_CHANGES && spec_u64_to_le_bytes(number).is_prefix_of(key)
    ||| col == columns::TRACING && spec_u64_to_le_bytes(number).is_prefix_of(key)
}

/// Two stores with the same entries under a scan give the same results to
/// a listing under that scan.
pub proof fn lemma_same_under_listing(
    c1: Contents,
    c2: Contents,
    col: u32,
    scan: Seq<u8>,
    prefix: Seq<u8>,
    r: Result<Option<Vec<(Vec<u8>, Option<Vec<u8>>)>>, StateKvError>,
)
    requires
        same_under(c1, c2, col, scan),
        scans(scan, prefix),
    ensures
        listing_result(c1, col, scan, prefix, r) == listing_result(c2, col, scan, prefix, r),
{
    lemma_same_under_parts(c1, c2, col, scan, prefix);
    lemma_same_under_parts(c2, c1, col, scan, prefix);
    match r {
        Ok(Some(list)) => {
            let l = crate::model::entries_view(list@);
            if is_listing(c1, col, scan, prefix, l) {
                lemma_same_under_is_listing(c1, c2, col, scan, prefix, l);
            }
            if is_listing(c2, col, scan, prefix, l) {
                lemma_same_under_is_listing(c2, c1, col, scan, prefix, l);
            }
        },
        _ => {},
    }
}

proof fn lemma_same_under_parts(
    c1: Contents,
    c2: Contents,
    col: u32,
    scan: Seq<u8>,
    prefix: Seq<u8>,
)
    requires
        same_under(c1, c2, col, scan) || same_under(c2, c1, col, scan),
    ensures
        none_under(c1, col, scan) ==> none_under(c2, col, scan),
        well_formed_under(c1, col, scan, prefix) ==> well_formed_under(c2, col, scan, prefix),
{
    if none_under(c1, col, scan) {
        assert forall|k: Seq<u8>| #[trigger] c2.contains_key((col, k)) implies !scan.is_prefix_of(
            k,
        ) by {
            if scan.is_prefix_of(k) {
                assert(lookup(c1, col, k) == lookup(c2, col, k));
                assert(c1.contains_key((col, k)));
            }
        }
    }
    if well_formed_under(c1, col, scan, prefix) {
        assert forall|k: Seq<u8>| #[trigger]
            c2.contains_key((col, k)) && scan.is_prefix_of(k) implies crate::codec::logical_key(
            k,
            prefix.len(),
        ) is Some && decode_value(c2[(col, k)]) is Some by {
            assert(lookup(c1, col, k) == lookup(c2, col, k));
            assert(c1.contains_key((col, k)));
        }
    }
}

proof fn lemma_same_under_is_listing(
    c1: Contents,
    c2: Contents,
    col: u32,
    scan: Seq<u8>,
    prefix: Seq<u8>,
    list: Seq<(Seq<u8>, Option<Seq<u8>>)>,
)
    requires
        same_under(c1, c2, col, scan) || same_under(c2, c1, col, scan),
        scans(scan, prefix),
        is_listing(c1, col, scan, prefix, list),
    ensures
        is_listing(c2, col, scan, prefix, list),
{
    assert forall|i: int| 0 <= i < list.len() implies {
        &&& c2.contains_key((col, state_key(prefix, (#[trigger] list[i]).0)))
        &&& decode_value(c2[(col, state_key(prefix, list[i].0))]) == Some(list[i].1)
    } by {
        let k = state_key(prefix, list[i].0);
        lemma_state_key_under_scan(scan, prefix, list[i].0);
        assert(scan.is_prefix_of(k));
        assert(lookup(c1, col, k) == lookup(c2, col, k));
    }
    assert forall|k: Seq<u8>| #[trigger]
        c2.contains_key((col, k)) && scan.is_prefix_of(k) implies exists|i: int|
        0 <= i < list.len() && k == state_key(prefix, (#[trigger] list[i]).0) by {
        assert(lookup(c1, col, k) == lookup(c2, col, k));
        assert(c1.contains_key((col, k)));
    }
}

/// Round trip. Whatever was staged before, once a transaction that ends with
/// a write of `value` to `key` is committed, a point read of `key` finds
/// `value`, a deletion as no value, and every listing of the block shows the
/// key with `value`, a deletion as `None`.
pub proof fn law_round_trip(
    c: Contents,
    hash: Seq<u8>,
    staged: Seq<WriteOp>,
    key: Seq<u8>,
    value: Option<Seq<u8>>,
)
    ensures
        ({
            let after = apply_ops(c, staged.push(set_op(hash, key, value)));
            &&& point_read(lookup(after, columns::STATE_KV, state_key(hash, key))) == Some(value)
            &&& forall|list: Seq<(Seq<u8>, Option<Seq<u8>>)>| #[trigger]
                is_listing(after, columns::STATE_KV, hash, hash, list) ==> exists|i: int|
                    0 <= i < list.len() && #[trigger] list[i] == (key, value)
        }),
{
    let after = apply_ops(c, staged.push(set_op(hash, key, value)));
    let k = state_key(hash, key);
    lemma_apply_push(c, staged, set_op(hash, key, value));
    lemma_decode_encode(value);
    lemma_state_key_round_trip(hash, key);
    assert(lookup(after, columns::STATE_KV, k) == Some(encode_value(value)));
    assert forall|list: Seq<(Seq<u8>, Option<Seq<u8>>)>| #[trigger]
        is_listing(after, columns::STATE_KV, hash, hash, list) implies exists|i: int|
        0 <= i < list.len() && #[trigger] list[i] == (key, value) by {
        assert(after.contains_key((columns::STATE_KV, k)) && hash.is_prefix_of(k));
        let i = choose|i: int| 0 <= i < list.len() && k == state_key(hash, (#[trigger] list[i]).0);
        lemma_state_key_injective(hash, key, hash, list[i].0);
        assert(list[i] == (key, value));
    }
}

/// Round trip for a child. The same, for a write under a child id.
pub proof fn law_child_round_trip(
    c: Contents,
    hash: Seq<u8>,
    staged: Seq<WriteOp>,
    child: Seq<u8>,
    key: Seq<u8>,
    value: Option<Seq<u8>>,
)
    ensures
        ({
            let after = apply_ops(c, staged.push(set_child_op(hash, child, key, value)));
            &&& point_read(lookup(after, columns::STATE_CHILD_KV, child_key(hash, child, key)))
                == Some(value)
            &&& forall|list: Seq<(Seq<u8>, Option<Seq<u8>>)>| #[trigger]
                is_listing(
                    after,
                    columns::STATE_CHILD_KV,
                    child_scan(hash, child),
                    child_prefix(hash, child),
                    list,
                ) ==> exists|i: int| 0 <= i < list.len() && #[trigger] list[i] == (key, value)
        }),
{
    let op = set_child_op(hash, child, key, value);
    let after = apply_ops(c, staged.push(op));
    let p = child_prefix(hash, child);
    let k = child_key(hash, child, key);
    lemma_apply_push(c, staged, op);
    lemma_decode_encode(value);
    lemma_child_key_round_trip(hash, child, key);
    assert(lookup(after, columns::STATE_CHILD_KV, k) == Some(encode_value(value)));
    lemma_state_key_under_scan(child_scan(hash, child), p, key);
    assert(k == state_key(p, key));
    assert forall|list: Seq<(Seq<u8>, Option<Seq<u8>>)>| #[trigger]
        is_listing(after, columns::STATE_CHILD_KV, child_scan(hash, child), p, list) implies exists|
        i: int,
    | 0 <= i < list.len() && #[trigger] list[i] == (key, value) by {
        assert(after.contains_key((columns::STATE_CHILD_KV, k)) && child_scan(
            hash,
            child,
        ).is_prefix_of(k));
        let i = choose|i: int| 0 <= i < list.len() && k == state_key(p, (#[trigger] list[i]).0);
        lemma_state_key_injective(p, key, p, list[i].0);
        assert(list[i] == (key, value));
    }
}

/// One operation that is staged under block `hash_a` leaves every entry
/// under another hash of the same width as it was.
proof fn lemma_staged_op_elsewhere(c: Contents, hash_a: Seq<u8>, op: WriteOp, col: u32, k: Seq<u8>)
    requires
        staged_under(hash_a, op),
        !hash_a.is_prefix_of(k),
    ensures
        lookup(apply_op(c, op), col, k) == lookup(c, col, k),
{
    let pk = op.key();
    assert(pk.subrange(0, hash_a.len() as int) == hash_a) by {
        assert(hash_a.push(SEPARATOR).is_prefix_of(pk));
        assert(pk.subrange(0, hash_a.len() as int + 1) == hash_a.push(SEPARATOR));
        assert(pk.subrange(0, hash_a.len() as int) =~= hash_a.push(SEPARATOR).subrange(
            0,
            hash_a.len() as int,
        ));
    }
    assert(hash_a.is_prefix_of(pk));
}

/// Isolation by hash. Committing a transaction of block `hash_a` leaves
/// every entry of another block `hash_b`, top-level or of a child, as it
/// was: no write under `hash_a` shows among the entries of `hash_b`.
pub proof fn law_isolation_by_hash(c: Contents, hash_a: Seq<u8>, hash_b: Seq<u8>, ops: Seq<WriteOp>)
    requires
        hash_a.len() == hash_b.len(),
        hash_a != hash_b,
        all_staged_under(hash_a, ops),
    ensures
        same_under(c, apply_ops(c, ops), columns::STATE_KV, hash_b),
        same_under(c, apply_ops(c, ops), columns::STATE_CHILD_KV, hash_b),
        forall|child: Seq<u8>|
            same_under(
                c,
                apply_ops(c, ops),
                columns::STATE_CHILD_KV,
                #[trigger] child_scan(hash_b, child),
            ),
    decreases ops.len(),
{
    let after = apply_ops(c, ops);
    assert forall|col: u32, k: Seq<u8>| hash_b.is_prefix_of(k) implies lookup(after, col, k) == lookup(
        c,
        col,
        k,
    ) by {
        lemma_staged_ops_elsewhere(c, hash_a, hash_b, ops, col, k);
    }
    assert forall|child: Seq<u8>|
        same_under(c, after, columns::STATE_CHILD_KV, #[trigger] child_scan(hash_b, child)) by {
        let p = child_scan(hash_b, child);
        assert forall|k: Seq<u8>| #[trigger] p.is_prefix_of(k) implies lookup(
            c,
            columns::STATE_CHILD_KV,
            k,
        ) == lookup(after, columns::STATE_CHILD_KV, k) by {
            assert(k.subrange(0, p.len() as int) == p);
            assert(k.subrange(0, hash_b.len() as int) =~= p.subrange(0, hash_b.len() as int));
            assert(p.subrange(0, hash_b.len() as int) =~= hash_b);
            assert(hash_b.is_prefix_of(k));
        }
    }
}

proof fn lemma_staged_ops_elsewhere(
    c: Contents,
    hash_a: Seq<u8>,
    hash_b: Seq<u8>,
    ops: Seq<WriteOp>,
    col: u32,
    k: Seq<u8>,
)
    requires
        hash_a.len() == hash_b.len(),
        hash_a != hash_b,
        all_staged_under(hash_a, ops),
        hash_b.is_prefix_of(k),
    ensures
        lookup(apply_ops(c, ops), col, k) == lookup(c, col, k),
    decreases ops.len(),
{
    if ops.len() > 0 {
        let front = ops.drop_last();
        assert forall|i: int| 0 <= i < front.len() implies staged_under(hash_a, #[trigger] front[i]) by {
            assert(front[i] == ops[i]);
        }
        lemma_staged_ops_elsewhere(c, hash_a, hash_b, front, col, k);
        assert(staged_under(hash_a, ops[ops.len() - 1]));
        if hash_a.is_prefix_of(k) {
            lemma_hash_prefix_unique(hash_a, hash_b, k);
        }
        lemma_staged_op_elsewhere(apply_ops(c, front), hash_a, ops.last(), col, k);
    }
}

/// The key of an entry of one child lies among the entries of another child
/// only where the other's id and the separator begin what this child's id,
/// the separator and the key spell.
pub proof fn lemma_child_key_under(
    hash: Seq<u8>,
    child_1: Seq<u8>,
    child_2: Seq<u8>,
    key: Seq<u8>,
)
    ensures
        child_scan(hash, child_1).is_prefix_of(child_key(hash, child_2, key)) == child_1.push(
            SEPARATOR,
        ).is_prefix_of(child_2.push(SEPARATOR) + key),
{
    let scan = child_scan(hash, child_1);
    let written = child_key(hash, child_2, key);
    let a = child_1.push(SEPARATOR);
    let b = child_2.push(SEPARATOR) + key;
    let front = hash.push(SEPARATOR);
    assert(scan =~= front + a);
    assert(written =~= front + b);
    if a.is_prefix_of(b) {
        assert(b.subrange(0, a.len() as int) == a);
        assert(written.subrange(0, scan.len() as int) =~= front + b.subrange(0, a.len() as int));
    }
    if scan.is_prefix_of(written) {
        assert(written.subrange(0, scan.len() as int) == scan);
        assert(b.subrange(0, a.len() as int) =~= written.subrange(
            front.len() as int,
            scan.len() as int,
        ));
        assert(written.subrange(front.len() as int, scan.len() as int) =~= scan.subrange(
            front.len() as int,
            scan.len() as int,
        ));
        assert(scan.subrange(front.len() as int, scan.len() as int) =~= a);
    }
}

/// Two different child ids that do not hold the separator: neither, with
/// the separator behind it, begins the other with the separator behind it,
/// whatever follows.
pub proof fn lemma_child_ids_apart(child_1: Seq<u8>, child_2: Seq<u8>, rest: Seq<u8>)
    requires
        child_1 != child_2,
        !child_1.contains(SEPARATOR),
        !child_2.contains(SEPARATOR),
    ensures
        !child_1.push(SEPARATOR).is_prefix_of(child_2.push(SEPARATOR) + rest),
{
    let a = child_1.push(SEPARATOR);
    let b = child_2.push(SEPARATOR) + rest;
    if a.is_prefix_of(b) {
        assert(b.subrange(0, a.len() as int) == a);
        if child_1.len() < child_2.len() {
            assert(b[child_1.len() as int] == a[child_1.len() as int]);
            assert(child_2[child_1.len() as int] == SEPARATOR);
        } else if child_1.len() > child_2.len() {
            assert(a[child_2.len() as int] == b[child_2.len() as int]);
            assert(child_1[child_2.len() as int] == SEPARATOR);
        } else {
            assert forall|i: int| 0 <= i < child_1.len() implies child_1[i] == child_2[i] by {
                assert(a[i] == b[i]);
            }
            assert(child_1 =~= child_2);
        }
    }
}

/// Child isolation. The entry that is written for `key` under `child_2` is
/// none of the entries that a listing of `child_1` shows, in whatever store,
/// unless `child_1` and the separator begin what `child_2`, the separator
/// and `key` spell; for two different ids without the separator in them that
/// is never so.
pub proof fn law_child_isolation(
    c: Contents,
    hash: Seq<u8>,
    child_1: Seq<u8>,
    child_2: Seq<u8>,
    key: Seq<u8>,
    list: Seq<(Seq<u8>, Option<Seq<u8>>)>,
    i: int,
)
    requires
        !child_1.push(SEPARATOR).is_prefix_of(child_2.push(SEPARATOR) + key),
        is_listing(
            c,
            columns::STATE_CHILD_KV,
            child_scan(hash, child_1),
            child_prefix(hash, child_1),
            list,
        ),
        0 <= i < list.len(),
    ensures
        state_key(child_prefix(hash, child_1), list[i].0) != child_key(hash, child_2, key),
{
    lemma_child_key_under(hash, child_1, child_2, key);
    lemma_state_key_under_scan(child_scan(hash, child_1), child_prefix(hash, child_1), list[i].0);
}

/// Child isolation of writes. A write under `child_2` leaves the entries of
/// `child_1` in the same block as they were, and so every result of listing
/// them, unless `child_1` and the separator begin what `child_2`, the
/// separator and `key` spell.
pub proof fn law_child_write_elsewhere(
    c: Contents,
    hash: Seq<u8>,
    child_1: Seq<u8>,
    child_2: Seq<u8>,
    key: Seq<u8>,
    value: Option<Seq<u8>>,
)
    requires
        !child_1.push(SEPARATOR).is_prefix_of(child_2.push(SEPARATOR) + key),
    ensures
        same_under(
            c,
            apply_op(c, set_child_op(hash, child_2, key, value)),
            columns::STATE_CHILD_KV,
            child_scan(hash, child_1),
        ),
{
    lemma_child_key_under(hash, child_1, child_2, key);
}

/// Deleting a child. Once the entries of `child` in block `hash` are
/// deleted, none is left. The entries of another child of the block are as
/// they were, unless one of the two ids with the separator begins the other
/// with the separator; so are the entries of every block with another hash
/// of the same width, and all that the other columns hold.
pub proof fn law_delete_child(
    c: Contents,
    hash: Seq<u8>,
    child: Seq<u8>,
    other: Seq<u8>,
    other_hash: Seq<u8>,
)
    requires
        !child.push(SEPARATOR).is_prefix_of(other.push(SEPARATOR)),
        !other.push(SEPARATOR).is_prefix_of(child.push(SEPARATOR)),
        hash.len() == other_hash.len(),
        hash != other_hash,
    ensures
        ({
            let after = apply_ops(
                c,
                seq![
                    WriteOp::DeletePrefix {
                        col: columns::STATE_CHILD_KV,
                        prefix: child_scan(hash, child),
                    },
                ],
            );
            &&& none_under(after, columns::STATE_CHILD_KV, child_scan(hash, child))
            &&& same_under(c, after, columns::STATE_CHILD_KV, child_scan(hash, other))
            &&& same_under(c, after, columns::STATE_CHILD_KV, other_hash)
            &&& forall|col: u32, key: Seq<u8>|
                col != columns::STATE_CHILD_KV ==> #[trigger] lookup(after, col, key) == lookup(
                    c,
                    col,
                    key,
                )
        }),
{
    let gone = child_scan(hash, child);
    let kept = child_scan(hash, other);
    let op = WriteOp::DeletePrefix { col: columns::STATE_CHILD_KV, prefix: gone };
    crate::db::lemma_apply_one(c, op);
    let after = apply_ops(c, seq![op]);
    let front = hash.push(SEPARATOR);
    assert(gone =~= front + child.push(SEPARATOR));
    assert(kept =~= front + other.push(SEPARATOR));
    assert forall|k: Seq<u8>| #[trigger] kept.is_prefix_of(k) implies lookup(
        c,
        columns::STATE_CHILD_KV,
        k,
    ) == lookup(after, columns::STATE_CHILD_KV, k) by {
        if gone.is_prefix_of(k) {
            assert(k.subrange(0, gone.len() as int) == gone);
            assert(k.subrange(0, kept.len() as int) == kept);
            let a = child.push(SEPARATOR);
            let b = other.push(SEPARATOR);
            let f = front.len() as int;
            let la = a.len() as int;
            let lb = b.len() as int;
            if a.len() <= b.len() {
                assert(b.subrange(0, a.len() as int) =~= kept.subrange(
                    f,
                    f + la,
                ));
                assert(kept.subrange(f, f + la) =~= k.subrange(
                    f,
                    f + la,
                ));
                assert(k.subrange(f, f + la) =~= gone.subrange(
                    f,
                    f + la,
                ));
                assert(gone.subrange(f, f + la) =~= a);
                assert(a.is_prefix_of(b));
            } else {
                assert(a.subrange(0, b.len() as int) =~= gone.subrange(
                    f,
                    f + lb,
                ));
                assert(gone.subrange(f, f + lb) =~= k.subrange(
                    f,
                    f + lb,
                ));
                assert(k.subrange(f, f + lb) =~= kept.subrange(
                    f,
                    f + lb,
                ));
                assert(kept.subrange(f, f + lb) =~= b);
                assert(b.is_prefix_of(a));
            }
        }
    }
    assert forall|k: Seq<u8>| #[trigger] other_hash.is_prefix_of(k) implies lookup(
        c,
        columns::STATE_CHILD_KV,
        k,
    ) == lookup(after, columns::STATE_CHILD_KV, k) by {
        if gone.is_prefix_of(k) {
            assert(k.subrange(0, gone.len() as int) == gone);
            assert(k.subrange(0, hash.len() as int) =~= gone.subrange(0, hash.len() as int));
            assert(gone.subrange(0, hash.len() as int) =~= hash);
            assert(hash.is_prefix_of(k));
            lemma_hash_prefix_unique(hash, other_hash, k);
        }
    }
}

/// Atomicity, the visible half. Once a batch of inserts is applied, each
/// insert that no later insert of the batch overwrites is in the store.
pub proof fn law_commit_all_visible(c: Contents, ops: Seq<WriteOp>, i: int)
    requires
        forall|j: int| 0 <= j < ops.len() ==> (#[trigger] ops[j]) is Insert,
        0 <= i < ops.len(),
        forall|j: int|
            i < j < ops.len() ==> !((#[trigger] ops[j]).col() == ops[i].col() && ops[j].key()
                == ops[i].key()),
    ensures
        lookup(apply_ops(c, ops), ops[i].col(), ops[i].key()) == Some(ops[i]->Insert_value),
    decreases ops.len(),
{
    let front = ops.drop_last();
    let last = ops.last();
    assert(last is Insert);
    if i == ops.len() - 1 {
    } else {
        assert forall|j: int| 0 <= j < front.len() implies (#[trigger] front[j]) is Insert by {
            assert(front[j] == ops[j]);
        }
        assert forall|j: int| i < j < front.len() implies !((#[trigger] front[j]).col()
            == front[i].col() && front[j].key() == front[i].key()) by {
            assert(front[j] == ops[j]);
        }
        law_commit_all_visible(c, front, i);
        assert(!(ops[ops.len() - 1].col() == ops[i].col() && ops[ops.len() - 1].key() == ops[i].key()));
    }
}

/// What reverting a block leaves of an entry: nothing where the entry is one
/// of the block's records, the entry itself everywhere else.
pub proof fn lemma_reverted_lookup(c: Contents, hash: Seq<u8>, number: u64, col: u32, key: Seq<u8>)
    ensures
        lookup(reverted(c, hash, number), col, key) == if revert_removes(hash, number, col, key) {
            None
        } else {
            lookup(c, col, key)
        },
{
    let ops = revert_ops(hash, number);
    let s0 = Seq::<WriteOp>::empty();
    let s1 = s0.push(ops[0]);
    let s2 = s1.push(ops[1]);
    let s3 = s2.push(ops[2]);
    assert(ops == s3.push(ops[3]));
    lemma_apply_push(c, s0, ops[0]);
    lemma_apply_push(c, s1, ops[1]);
    lemma_apply_push(c, s2, ops[2]);
    lemma_apply_push(c, s3, ops[3]);
    let c1 = apply_ops(c, s1);
    let c2 = apply_ops(c, s2);
    let c3 = apply_ops(c, s3);
    assert(apply_ops(c, s0) == c);
    assert(c1 == c.remove_keys(keys_under(columns::STATE_KV, hash)));
    assert(c2 == c1.remove_keys(keys_under(columns::STATE_CHILD_KV, hash.push(SEPARATOR))));
    assert(c3 == c2.remove_keys(
        keys_under(columns::EXTRINSIC_CHANGES, spec_u64_to_le_bytes(number)),
    ));
    assert(reverted(c, hash, number) == c3.remove_keys(
        keys_under(columns::TRACING, spec_u64_to_le_bytes(number)),
    ));
}

/// Revert. Reverting block `number` with hash `hash` leaves none of its
/// state entries, child entries, extrinsic records and traces; it leaves the
/// records of every other block and both directions of the index as they
/// were; and reverting the same block once more changes nothing.
pub proof fn law_revert(c: Contents, hash: Seq<u8>, number: u64)
    ensures
        none_under(reverted(c, hash, number), columns::STATE_KV, hash),
        none_under(reverted(c, hash, number), columns::STATE_CHILD_KV, hash.push(SEPARATOR)),
        none_under(
            reverted(c, hash, number),
            columns::EXTRINSIC_CHANGES,
            spec_u64_to_le_bytes(number),
        ),
        none_under(reverted(c, hash, number), columns::TRACING, spec_u64_to_le_bytes(number)),
        forall|col: u32, key: Seq<u8>|
            !revert_removes(hash, number, col, key) ==> #[trigger] lookup(
                reverted(c, hash, number),
                col,
                key,
            ) == lookup(c, col, key),
        forall|n: u64| #[trigger] hash_of(reverted(c, hash, number), n) == hash_of(c, n),
        forall|h: Seq<u8>| #[trigger] number_of(reverted(c, hash, number), h) == number_of(c, h),
        reverted(reverted(c, hash, number), hash, number) == reverted(c, hash, number),
{
    let r = reverted(c, hash, number);
    assert forall|col: u32, key: Seq<u8>|
        #[trigger] lookup(r, col, key) == if revert_removes(hash, number, col, key) {
            None
        } else {
            lookup(c, col, key)
        } by {
        lemma_reverted_lookup(c, hash, number, col, key);
    }
    assert forall|k: Seq<u8>| #[trigger] r.contains_key((columns::STATE_KV, k)) implies !hash.is_prefix_of(
        k,
    ) by {
        assert(lookup(r, columns::STATE_KV, k) is Some);
    }
    assert forall|k: Seq<u8>| #[trigger]
        r.contains_key((columns::STATE_CHILD_KV, k)) implies !hash.push(SEPARATOR).is_prefix_of(k) by {
        assert(lookup(r, columns::STATE_CHILD_KV, k) is Some);
    }
    assert forall|k: Seq<u8>| #[trigger]
        r.contains_key((columns::EXTRINSIC_CHANGES, k)) implies !spec_u64_to_le_bytes(
        number,
    ).is_prefix_of(k) by {
        assert(lookup(r, columns::EXTRINSIC_CHANGES, k) is Some);
    }
    assert forall|k: Seq<u8>| #[trigger]
        r.contains_key((columns::TRACING, k)) implies !spec_u64_to_le_bytes(number).is_prefix_of(k) by {
        assert(lookup(r, columns::TRACING, k) is Some);
    }
    assert forall|n: u64| #[trigger] hash_of(r, n) == hash_of(c, n) by {
        assert(lookup(r, columns::NUMBER_TO_HASH, spec_u64_to_le_bytes(n)) == lookup(
            c,
            columns::NUMBER_TO_HASH,
            spec_u64_to_le_bytes(n),
        ));
    }
    assert forall|h: Seq<u8>| #[trigger] number_of(r, h) == number_of(c, h) by {
        assert(lookup(r, columns::HASH_TO_NUMBER, h) == lookup(c, columns::HASH_TO_NUMBER, h));
    }
    let rr = reverted(r, hash, number);
    assert forall|k: (u32, Seq<u8>)| #[trigger] rr.dom().contains(k) implies r.dom().contains(k)
        && rr[k] == r[k] by {
        lemma_reverted_lookup(r, hash, number, k.0, k.1);
        lemma_reverted_lookup(c, hash, number, k.0, k.1);
        assert(k == (k.0, k.1));
        assert(lookup(rr, k.0, k.1) == lookup(r, k.0, k.1));
    }
    assert forall|k: (u32, Seq<u8>)| #[trigger] r.dom().contains(k) implies rr.dom().contains(k) by {
        lemma_reverted_lookup(r, hash, number, k.0, k.1);
        lemma_reverted_lookup(c, hash, number, k.0, k.1);
        assert(k == (k.0, k.1));
        assert(lookup(rr, k.0, k.1) == lookup(r, k.0, k.1));
    }
    assert(rr.dom() =~= r.dom());
    assert(rr =~= r);
}

/// Revert touches one block only. The entries of a block with another hash
/// of the same width, and the records of a block with another number, are
/// after the revert what they were before.
pub proof fn law_revert_one_block_only(
    c: Contents,
    hash: Seq<u8>,
    number: u64,
    other_hash: Seq<u8>,
    other_number: u64,
)
    requires
        hash.len() == other_hash.len(),
        hash != other_hash,
        number != other_number,
    ensures
        same_under(c, reverted(c, hash, number), columns::STATE_KV, other_hash),
        same_under(c, reverted(c, hash, number), columns::STATE_CHILD_KV, other_hash.push(SEPARATOR)),
        same_under(
            c,
            reverted(c, hash, number),
            columns::EXTRINSIC_CHANGES,
            spec_u64_to_le_bytes(other_number),
        ),
        same_under(c, reverted(c, hash, number), columns::TRACING, spec_u64_to_le_bytes(other_number)),
{
    let r = reverted(c, hash, number);
    assert forall|k: Seq<u8>| #[trigger] other_hash.is_prefix_of(k) implies lookup(
        c,
        columns::STATE_KV,
        k,
    ) == lookup(r, columns::STATE_KV, k) by {
        lemma_reverted_lookup(c, hash, number, columns::STATE_KV, k);
        if hash.is_prefix_of(k) {
            lemma_hash_prefix_unique(hash, other_hash, k);
        }
    }
    assert forall|k: Seq<u8>| #[trigger] other_hash.push(SEPARATOR).is_prefix_of(k) implies lookup(
        c,
        columns::STATE_CHILD_KV,
        k,
    ) == lookup(r, columns::STATE_CHILD_KV, k) by {
        lemma_reverted_lookup(c, hash, number, columns::STATE_CHILD_KV, k);
        if hash.push(SEPARATOR).is_prefix_of(k) {
            lemma_hash_prefix_unique(hash.push(SEPARATOR), other_hash.push(SEPARATOR), k);
            assert(hash.push(SEPARATOR).drop_last() == hash);
            assert(other_hash.push(SEPARATOR).drop_last() == other_hash);
        }
    }
    let p = spec_u64_to_le_bytes(other_number);
    assert forall|k: Seq<u8>| #[trigger] p.is_prefix_of(k) implies lookup(
        c,
        columns::EXTRINSIC_CHANGES,
        k,
    ) == lookup(r, columns::EXTRINSIC_CHANGES, k) && lookup(c, columns::TRACING, k) == lookup(
        r,
        columns::TRACING,
        k,
    ) by {
        lemma_reverted_lookup(c, hash, number, columns::EXTRINSIC_CHANGES, k);
        lemma_reverted_lookup(c, hash, number, columns::TRACING, k);
        if spec_u64_to_le_bytes(number).is_prefix_of(k) {
            lemma_number_prefix_unique(number, other_number, k);
        }
    }
}

/// Whether the two directions of the index agree: a number is recorded for
/// a hash exactly where the hash is recorded for the number.
pub open spec fn index_consistent(c: Contents) -> bool {
    forall|hash: Seq<u8>, number: Seq<u8>|
        #![trigger lookup(c, columns::HASH_TO_NUMBER, hash), lookup(c, columns::NUMBER_TO_HASH, number)]
        lookup(c, columns::HASH_TO_NUMBER, hash) == Some(number) <==> lookup(
            c,
            columns::NUMBER_TO_HASH,
            number,
        ) == Some(hash)
}

/// What recording a hash and a number leaves of an entry: the new pair in
/// both directions, nothing of the pairs that went stale, and every other
/// entry as it was.
pub proof fn lemma_index_lookup(c: Contents, hash: Seq<u8>, number: u64, col: u32, key: Seq<u8>)
    ensures
        lookup(apply_ops(c, index_ops(c, hash, number)), col, key) == ({
            let bytes = spec_u64_to_le_bytes(number);
            let by_number = lookup(c, columns::NUMBER_TO_HASH, bytes);
            let by_hash = lookup(c, columns::HASH_TO_NUMBER, hash);
            if col == columns::NUMBER_TO_HASH && key == bytes {
                Some(hash)
            } else if col == columns::HASH_TO_NUMBER && key == hash {
                Some(bytes)
            } else if col == columns::HASH_TO_NUMBER && by_number == Some(key) {
                None
            } else if col == columns::NUMBER_TO_HASH && by_hash == Some(key) {
                None
            } else {
                lookup(c, col, key)
            }
        }),
{
    let bytes = spec_u64_to_le_bytes(number);
    let by_number = lookup(c, columns::NUMBER_TO_HASH, bytes);
    let by_hash = lookup(c, columns::HASH_TO_NUMBER, hash);
    let first = if by_number is Some && by_number->Some_0 != hash {
        seq![WriteOp::Delete { col: columns::HASH_TO_NUMBER, key: by_number->Some_0 }]
    } else {
        Seq::<WriteOp>::empty()
    };
    let second = if by_hash is Some && by_hash->Some_0 != bytes {
        seq![WriteOp::Delete { col: columns::NUMBER_TO_HASH, key: by_hash->Some_0 }]
    } else {
        Seq::<WriteOp>::empty()
    };
    let pair = pair_ops(hash, number);
    assert(stale_ops(c, hash, number) == first + second);
    crate::db::lemma_apply_concat(c, first + second, pair);
    crate::db::lemma_apply_concat(c, first, second);
    let c1 = apply_ops(c, first);
    let c2 = apply_ops(c1, second);
    if first.len() > 0 {
        crate::db::lemma_apply_one(c, first[0]);
        assert(first == seq![first[0]]);
    }
    if second.len() > 0 {
        crate::db::lemma_apply_one(c1, second[0]);
        assert(second == seq![second[0]]);
    }
    let s0 = Seq::<WriteOp>::empty();
    let s1 = s0.push(pair[0]);
    assert(pair == s1.push(pair[1]));
    lemma_apply_push(c2, s0, pair[0]);
    lemma_apply_push(c2, s1, pair[1]);
    assert(apply_ops(c2, s0) == c2);
}

/// Hash and number. Once a hash and a number are recorded, each is found by
/// the other, and neither is found by another: the hash that the number was
/// recorded for before has no number any more, and the number that the hash
/// was recorded for before has no hash any more.
pub proof fn law_index_round_trip(c: Contents, hash: Seq<u8>, number: u64)
    ensures
        ({
            let after = apply_ops(c, index_ops(c, hash, number));
            &&& indexed(after, hash, number)
            &&& forall|stale: Seq<u8>|
                stale != hash && hash_of(c, number) == Some(stale) ==> (#[trigger] lookup(
                    after,
                    columns::HASH_TO_NUMBER,
                    stale,
                )) is None
            &&& forall|stale: Seq<u8>|
                stale != spec_u64_to_le_bytes(number) && lookup(c, columns::HASH_TO_NUMBER, hash)
                    == Some(stale) ==> (#[trigger] lookup(after, columns::NUMBER_TO_HASH, stale))
                    is None
        }),
{
    lemma_auto_spec_u64_to_from_le_bytes();
    let after = apply_ops(c, index_ops(c, hash, number));
    lemma_index_lookup(c, hash, number, columns::NUMBER_TO_HASH, spec_u64_to_le_bytes(number));
    lemma_index_lookup(c, hash, number, columns::HASH_TO_NUMBER, hash);
    assert forall|stale: Seq<u8>|
        stale != hash && hash_of(c, number) == Some(stale) implies (#[trigger] lookup(
        after,
        columns::HASH_TO_NUMBER,
        stale,
    )) is None by {
        lemma_index_lookup(c, hash, number, columns::HASH_TO_NUMBER, stale);
    }
    assert forall|stale: Seq<u8>|
        stale != spec_u64_to_le_bytes(number) && lookup(c, columns::HASH_TO_NUMBER, hash) == Some(
            stale,
        ) implies (#[trigger] lookup(after, columns::NUMBER_TO_HASH, stale)) is None by {
        lemma_index_lookup(c, hash, number, columns::NUMBER_TO_HASH, stale);
    }
}

/// The index stays a bijection. Where the two directions of the index
/// agree, they agree once a hash and a number are recorded, whatever was
/// recorded before: at most one hash is recorded for a number, at most one
/// number for a hash, and each is found by the other.
pub proof fn law_index_stays_consistent(c: Contents, hash: Seq<u8>, number: u64)
    requires
        index_consistent(c),
    ensures
        index_consistent(apply_ops(c, index_ops(c, hash, number))),
{
    let after = apply_ops(c, index_ops(c, hash, number));
    let bytes = spec_u64_to_le_bytes(number);
    assert forall|h: Seq<u8>, n: Seq<u8>|
        #![trigger lookup(after, columns::HASH_TO_NUMBER, h), lookup(after, columns::NUMBER_TO_HASH, n)]
        lookup(after, columns::HASH_TO_NUMBER, h) == Some(n) <==> lookup(
            after,
            columns::NUMBER_TO_HASH,
            n,
        ) == Some(h) by {
        lemma_index_lookup(c, hash, number, columns::HASH_TO_NUMBER, h);
        lemma_index_lookup(c, hash, number, columns::NUMBER_TO_HASH, n);
        assert(lookup(c, columns::HASH_TO_NUMBER, h) == Some(n) <==> lookup(
            c,
            columns::NUMBER_TO_HASH,
            n,
        ) == Some(h));
        assert(lookup(c, columns::HASH_TO_NUMBER, hash) == Some(n) <==> lookup(
            c,
            columns::NUMBER_TO_HASH,
            n,
        ) == Some(hash));
        assert(lookup(c, columns::HASH_TO_NUMBER, h) == Some(bytes) <==> lookup(
            c,
            columns::NUMBER_TO_HASH,
            bytes,
        ) == Some(h));
    }
}

/// Hash and number of other blocks. Where the two directions of the index
/// agree, recording a block with another hash and another number leaves a
/// recorded pair as it was.
pub proof fn law_index_keeps_others(
    c: Contents,
    hash: Seq<u8>,
    number: u64,
    other_hash: Seq<u8>,
    other_number: u64,
)
    requires
        index_consistent(c),
        indexed(c, hash, number),
        hash != other_hash,
        number != other_number,
    ensures
        indexed(apply_ops(c, index_ops(c, other_hash, other_number)), hash, number),
{
    lemma_auto_spec_u64_to_from_le_bytes();
    let bytes = spec_u64_to_le_bytes(number);
    let other_bytes = spec_u64_to_le_bytes(other_number);
    lemma_index_lookup(c, other_hash, other_number, columns::NUMBER_TO_HASH, bytes);
    lemma_index_lookup(c, other_hash, other_number, columns::HASH_TO_NUMBER, hash);
    if bytes == other_bytes {
        assert(vstd::bytes::spec_u64_from_le_bytes(bytes) == number);
        assert(vstd::bytes::spec_u64_from_le_bytes(other_bytes) == other_number);
    }
    assert(lookup(c, columns::HASH_TO_NUMBER, hash) == Some(other_bytes) <==> lookup(
        c,
        columns::NUMBER_TO_HASH,
        other_bytes,
    ) == Some(hash));
    assert(lookup(c, columns::HASH_TO_NUMBER, other_hash) == Some(bytes) <==> lookup(
        c,
        columns::NUMBER_TO_HASH,
        bytes,
    ) == Some(other_hash));
    let stored = lookup(c, columns::HASH_TO_NUMBER, hash)->Some_0;
    assert(lookup(c, columns::HASH_TO_NUMBER, hash) == Some(stored) <==> lookup(
        c,
        columns::NUMBER_TO_HASH,
        stored,
    ) == Some(hash));
}

/// Hash and number outlast writes and reverts. Neither the commit of a
/// transaction nor the revert of any block changes a recorded pair.
pub proof fn law_index_outlasts(
    c: Contents,
    hash: Seq<u8>,
    number: u64,
    tx_hash: Seq<u8>,
    ops: Seq<WriteOp>,
    reverted_hash: Seq<u8>,
    reverted_number: u64,
)
    requires
        all_staged_under(tx_hash, ops),
    ensures
        indexed(c, hash, number) ==> indexed(apply_ops(c, ops), hash, number),
        indexed(c, hash, number) ==> indexed(
            reverted(c, reverted_hash, reverted_number),
            hash,
            number,
        ),
        index_consistent(c) ==> index_consistent(apply_ops(c, ops)),
        index_consistent(c) ==> index_consistent(reverted(c, reverted_hash, reverted_number)),
{
    law_revert(c, reverted_hash, reverted_number);
    lemma_staged_ops_other_column(c, tx_hash, ops, columns::NUMBER_TO_HASH, spec_u64_to_le_bytes(number));
    lemma_staged_ops_other_column(c, tx_hash, ops, columns::HASH_TO_NUMBER, hash);
    let written = apply_ops(c, ops);
    let back = reverted(c, reverted_hash, reverted_number);
    if index_consistent(c) {
        assert forall|h: Seq<u8>, n: Seq<u8>|
            #![trigger lookup(written, columns::HASH_TO_NUMBER, h), lookup(written, columns::NUMBER_TO_HASH, n)]
            lookup(written, columns::HASH_TO_NUMBER, h) == Some(n) <==> lookup(
                written,
                columns::NUMBER_TO_HASH,
                n,
            ) == Some(h) by {
            lemma_staged_ops_other_column(c, tx_hash, ops, columns::NUMBER_TO_HASH, n);
            lemma_staged_ops_other_column(c, tx_hash, ops, columns::HASH_TO_NUMBER, h);
            assert(lookup(c, columns::HASH_TO_NUMBER, h) == Some(n) <==> lookup(
                c,
                columns::NUMBER_TO_HASH,
                n,
            ) == Some(h));
        }
        assert forall|h: Seq<u8>, n: Seq<u8>|
            #![trigger lookup(back, columns::HASH_TO_NUMBER, h), lookup(back, columns::NUMBER_TO_HASH, n)]
            lookup(back, columns::HASH_TO_NUMBER, h) == Some(n) <==> lookup(
                back,
                columns::NUMBER_TO_HASH,
                n,
            ) == Some(h) by {
            lemma_reverted_lookup(c, reverted_hash, reverted_number, columns::NUMBER_TO_HASH, n);
            lemma_reverted_lookup(c, reverted_hash, reverted_number, columns::HASH_TO_NUMBER, h);
            assert(lookup(c, columns::HASH_TO_NUMBER, h) == Some(n) <==> lookup(
                c,
                columns::NUMBER_TO_HASH,
                n,
            ) == Some(h));
        }
    }
}

/// The staged writes of a transaction touch the two state columns only.
pub proof fn lemma_staged_ops_other_column(
    c: Contents,
    hash: Seq<u8>,
    ops: Seq<WriteOp>,
    col: u32,
    key: Seq<u8>,
)
    requires
        all_staged_under(hash, ops),
        col != columns::STATE_KV,
        col != columns::STATE_CHILD_KV,
    ensures
        lookup(apply_ops(c, ops), col, key) == lookup(c, col, key),
    decreases ops.len(),
{
    if ops.len() > 0 {
        let front = ops.drop_last();
        assert forall|i: int| 0 <= i < front.len() implies staged_under(hash, #[trigger] front[i]) by {
            assert(front[i] == ops[i]);
        }
        lemma_staged_ops_other_column(c, hash, front, col, key);
        assert(staged_under(hash, ops[ops.len() - 1]));
    }
}

/// Stored text. Once a text is written under a key, what is stored there
/// reads back as that text; once the key is deleted, nothing is stored
/// there.
pub proof fn law_text_round_trip(c: Contents, col: u32, key: Seq<u8>, text: Seq<char>)
    ensures
        ({
            let written = apply_ops(
                c,
                seq![WriteOp::Insert { col: col, key: key, value: vstd::utf8::encode_utf8(text) }],
            );
            let deleted = apply_ops(written, seq![WriteOp::Delete { col: col, key: key }]);
            &&& lookup(written, col, key) == Some(vstd::utf8::encode_utf8(text))
            &&& crate::text::text_of(vstd::utf8::encode_utf8(text)) == text
            &&& lookup(deleted, col, key) is None
        }),
{
    let put = WriteOp::Insert { col: col, key: key, value: vstd::utf8::encode_utf8(text) };
    let del = WriteOp::Delete { col: col, key: key };
    crate::db::lemma_apply_one(c, put);
    crate::db::lemma_apply_one(apply_ops(c, seq![put]), del);
    crate::text::lemma_text_round_trip(text);
}

/// Deleting the entries of a block leaves none of them, and leaves the
/// entries of every block with another hash of the same width as they were.
pub proof fn law_delete_by_hash(c: Contents, hash: Seq<u8>, other_hash: Seq<u8>)
    requires
        hash.len() == other_hash.len(),
        hash != other_hash,
    ensures
        ({
            let after = apply_ops(
                c,
                seq![WriteOp::DeletePrefix { col: columns::STATE_KV, prefix: hash }],
            );
            &&& none_under(after, columns::STATE_KV, hash)
            &&& same_under(c, after, columns::STATE_KV, other_hash)
        }),
{
    let op = WriteOp::DeletePrefix { col: columns::STATE_KV, prefix: hash };
    crate::db::lemma_apply_one(c, op);
    let after = apply_ops(c, seq![op]);
    assert forall|k: Seq<u8>| #[trigger] other_hash.is_prefix_of(k) implies lookup(
        c,
        columns::STATE_KV,
        k,
    ) == lookup(after, columns::STATE_KV, k) by {
        if hash.is_prefix_of(k) {
            lemma_hash_prefix_unique(hash, other_hash, k);
        }
    }
}

} // verus!
