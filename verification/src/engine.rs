//! The engine: every read, write and revert of the store.
//!
//! The engine owns the backend's handle. Each write is one batch of the
//! backend, so it takes effect as a whole or not at all. Reads never change
//! what the store holds. Writes take the engine by `&mut`: callers that
//! share the engine put it behind a lock of their own, and many readers or
//! one writer hold it at a time.

use crate::codec::{
    child_key, child_prefix, child_scan, decode_stored, decode_value, encode_stored, indexed_key,
    logical_key, opt_slice_view, opt_view, real_child_key, real_child_scan, real_children_prefix,
    real_key, state_key, strip_prefix, tracing_key, BlockHash, HASH_LEN, SEPARATOR,
};
use crate::columns;
use crate::db::{
    all_ff, apply_op, apply_ops, db_columns, db_contents, deletable_under, deletes_before_inserts,
    io_error_text, is_scan, lemma_apply_one, lemma_apply_push, lookup, ops_within, pairs_view,
    prefixes_deletable, tx_delete, tx_delete_prefix, tx_ops, tx_put, tx_with_capacity, ColumnDb,
    Contents, WriteOp, MAX_ENDLESS_PREFIX, NUM_COLUMNS,
};
use crate::error::StateKvError;
use crate::model::{
    block_listing, child_listing, entries_view, hash_of, lemma_bytes_lt_common_prefix,
    lemma_rebuild, lemma_scan_removals, lemma_scan_under_prefix, listing_result, read_result,
    scans, text_result, well_formed_under,
};
use crate::transaction::bytes_eq;
use crate::text::text_from_utf8_lossy;
use crate::transaction::{set_child_op, set_op, StateKvTransaction};
use kvdb::{DBTransaction, KeyValueDB};
use vstd::bytes::{
    lemma_auto_spec_u64_to_from_le_bytes, spec_u64_from_le_bytes, spec_u64_to_le_bytes,
    u64_from_le_bytes, u64_to_le_bytes,
};
use vstd::prelude::*;
use vstd::utf8::encode_utf8;

verus! {

/// Whether `r` and `after` are an outcome of writing the batch `ops` to a
/// store that held `before`: on success the batch is applied, on failure
/// nothing has changed.
pub open spec fn write_result(
    before: Contents,
    after: Contents,
    ops: Seq<WriteOp>,
    r: Result<(), StateKvError>,
) -> bool {
    match r {
        Ok(()) => after == apply_ops(before, ops),
        Err(StateKvError::Database(_)) => after == before,
        Err(_) => false,
    }
}

/// The removals that keep the index free of stale pairs when `hash` and
/// `number` are recorded in a store that holds `c`: the entry of the hash
/// that the number was recorded for, where that is another hash, and the
/// entry of the number that the hash was recorded for, where that is another
/// number.
pub open spec fn stale_ops(c: Contents, hash: Seq<u8>, number: u64) -> Seq<WriteOp> {
    let by_number = lookup(c, columns::NUMBER_TO_HASH, spec_u64_to_le_bytes(number));
    let by_hash = lookup(c, columns::HASH_TO_NUMBER, hash);
    (if by_number is Some && by_number->Some_0 != hash {
        seq![WriteOp::Delete { col: columns::HASH_TO_NUMBER, key: by_number->Some_0 }]
    } else {
        Seq::<WriteOp>::empty()
    }) + (if by_hash is Some && by_hash->Some_0 != spec_u64_to_le_bytes(number) {
        seq![WriteOp::Delete { col: columns::NUMBER_TO_HASH, key: by_hash->Some_0 }]
    } else {
        Seq::<WriteOp>::empty()
    })
}

/// The two inserts that record `hash` and `number` for each other.
pub open spec fn pair_ops(hash: Seq<u8>, number: u64) -> Seq<WriteOp> {
    seq![
        WriteOp::Insert {
            col: columns::HASH_TO_NUMBER,
            key: hash,
            value: spec_u64_to_le_bytes(number),
        },
        WriteOp::Insert {
            col: columns::NUMBER_TO_HASH,
            key: spec_u64_to_le_bytes(number),
            value: hash,
        },
    ]
}

/// The batch that records `hash` and `number` for each other in a store
/// that holds `c`: the removals of the pairs that would go stale, then the
/// two inserts.
pub open spec fn index_ops(c: Contents, hash: Seq<u8>, number: u64) -> Seq<WriteOp> {
    stale_ops(c, hash, number) + pair_ops(hash, number)
}

/// The batch that removes every record of block `number` with hash `hash`:
/// its state entries, the entries of all its children, the storage
/// operations of its extrinsics and its contract traces.
pub open spec fn revert_ops(hash: Seq<u8>, number: u64) -> Seq<WriteOp> {
    seq![
        WriteOp::DeletePrefix { col: columns::STATE_KV, prefix: hash },
        WriteOp::DeletePrefix { col: columns::STATE_CHILD_KV, prefix: hash.push(SEPARATOR) },
        WriteOp::DeletePrefix {
            col: columns::EXTRINSIC_CHANGES,
            prefix: spec_u64_to_le_bytes(number),
        },
        WriteOp::DeletePrefix { col: columns::TRACING, prefix: spec_u64_to_le_bytes(number) },
    ]
}

/// What the store holds once block `number` with hash `hash` is reverted.
pub open spec fn reverted(c: Contents, hash: Seq<u8>, number: u64) -> Contents {
    apply_ops(c, revert_ops(hash, number))
}

/// Whether `r` is a result that a read of a recorded hash may give.
pub open spec fn hash_result(stored: Option<Seq<u8>>, r: Result<Option<BlockHash>, StateKvError>) -> bool {
    match r {
        Ok(Some(hash)) => stored == Some(hash@),
        Ok(None) => stored is None,
        Err(StateKvError::Corrupted) => stored is Some && stored->Some_0.len() != HASH_LEN,
        Err(StateKvError::Database(_)) => true,
        Err(_) => false,
    }
}

/// Whether `r` is a result that a read of a recorded number may give.
pub open spec fn number_result(stored: Option<Seq<u8>>, r: Result<Option<u64>, StateKvError>) -> bool {
    match r {
        Ok(Some(number)) => {
            &&& stored is Some
            &&& stored->Some_0.len() == 8
            &&& number == spec_u64_from_le_bytes(stored->Some_0)
        },
        Ok(None) => stored is None,
        Err(StateKvError::Corrupted) => stored is Some && stored->Some_0.len() != 8,
        Err(StateKvError::Database(_)) => true,
        Err(_) => false,
    }
}

/// Whether `r` and `after` are an outcome of reverting block `number` in a
/// store that held `before`.
pub open spec fn revert_result(
    before: Contents,
    after: Contents,
    number: u64,
    r: Result<(), StateKvError>,
) -> bool {
    match r {
        Ok(()) => {
            &&& hash_of(before, number) is Some
            &&& hash_of(before, number)->Some_0.len() == HASH_LEN
            &&& after == reverted(before, hash_of(before, number)->Some_0, number)
        },
        Err(StateKvError::NoHashForNumber(n)) => {
            &&& n == number
            &&& hash_of(before, number) is None
            &&& after == before
        },
        Err(StateKvError::Corrupted) => {
            &&& hash_of(before, number) is Some
            &&& hash_of(before, number)->Some_0.len() != HASH_LEN
            &&& after == before
        },
        Err(StateKvError::Database(_)) => after == before,
        Err(_) => false,
    }
}

/// Turns the failure of a backend call into an error of the store.
pub fn handle_err<T>(result: Result<T, std::io::Error>) -> (r: Result<T, StateKvError>)
    ensures
        match result {
            Ok(value) => r == Ok::<T, StateKvError>(value),
            Err(_) => r is Err && r->Err_0 is Database,
        },
{
    match result {
        Ok(value) => Ok(value),
        Err(e) => Err(StateKvError::Database(io_error_text(&e))),
    }
}

/// Copies a byte string of the width of a hash into a hash.
pub fn to_hash(bytes: &[u8]) -> (hash: Option<BlockHash>)
    ensures
        match hash {
            Some(h) => h@ == bytes@,
            None => bytes@.len() != HASH_LEN,
        },
{
    if bytes.len() != HASH_LEN {
        return None;
    }
    let mut hash: BlockHash = [0u8; 32];
    let mut i: usize = 0;
    while i < HASH_LEN
        invariant
            i <= HASH_LEN,
            bytes@.len() == HASH_LEN,
            forall|j: int| 0 <= j < i ==> hash@[j] == bytes@[j],
        decreases HASH_LEN - i,
    {
        hash[i] = bytes[i];
        i += 1;
    }
    assert(hash@ =~= bytes@);
    Some(hash)
}

/// Whether the backend can delete under `prefix` in one operation.
pub fn can_delete_under(prefix: &[u8]) -> (b: bool)
    ensures
        b == deletable_under(prefix@),
{
    if prefix.len() <= MAX_ENDLESS_PREFIX {
        return true;
    }
    let mut i: usize = 0;
    while i < prefix.len()
        invariant
            i <= prefix@.len(),
            forall|j: int| 0 <= j < i ==> prefix@[j] == 0xff,
        decreases prefix@.len() - i,
    {
        if prefix[i] != 0xff {
            return true;
        }
        i += 1;
    }
    false
}

/// The block-scoped store of state changes.
pub struct StateKv {
    state_kv_db: ColumnDb,
}

impl StateKv {
    /// What the store holds: the value under each column and physical key.
    pub closed spec fn contents(&self) -> Contents {
        db_contents(self.state_kv_db)
    }

    /// The backend has all the columns that the store uses.
    pub closed spec fn wf(&self) -> bool {
        db_columns(self.state_kv_db) >= NUM_COLUMNS
    }

    /// Takes a backend as the store. Fails where a read of the last column
    /// that the store uses does not succeed. What is stated of the store
    /// holds of a backend that keeps its keys in ascending order and writes
    /// a batch as a whole, as the in-memory backend and the one on disk do;
    /// the trait itself promises neither.
    pub fn new<D: KeyValueDB + 'static>(backend: D) -> (r: Result<StateKv, StateKvError>)
        ensures
            match r {
                Ok(store) => store.wf(),
                Err(e) => e is MissingColumns,
            },
    {
        let db: ColumnDb = ColumnDb::wrap(backend);
        StateKv::with_probe(db)
    }

    fn with_probe(db: ColumnDb) -> (r: Result<StateKv, StateKvError>)
        ensures
            match r {
                Ok(store) => store.wf() && store.contents() == db_contents(db),
                Err(e) => e is MissingColumns,
            },
    {
        if db.has_column(NUM_COLUMNS - 1) {
            Ok(StateKv { state_kv_db: db })
        } else {
            Err(StateKvError::MissingColumns)
        }
    }

    fn write_batch(&mut self, t: DBTransaction) -> (r: Result<(), StateKvError>)
        requires
            old(self).wf(),
            ops_within(tx_ops(t), NUM_COLUMNS as nat),
            deletes_before_inserts(tx_ops(t)),
            prefixes_deletable(tx_ops(t)),
        ensures
            final(self).wf(),
            write_result(old(self).contents(), final(self).contents(), tx_ops(t), r),
    {
        match self.state_kv_db.write(t) {
            Ok(()) => Ok(()),
            Err(e) => Err(StateKvError::Database(io_error_text(&e))),
        }
    }

    fn set_kv_impl(&mut self, col: u32, real_key: &[u8], stored: &[u8]) -> (r: Result<(), StateKvError>)
        requires
            old(self).wf(),
            col < NUM_COLUMNS,
        ensures
            final(self).wf(),
            write_result(
                old(self).contents(),
                final(self).contents(),
                seq![WriteOp::Insert { col: col, key: real_key@, value: stored@ }],
                r,
            ),
    {
        let mut t: DBTransaction = tx_with_capacity(1);
        tx_put(&mut t, col, real_key, stored);
        assert(tx_ops(t) == seq![WriteOp::Insert { col: col, key: real_key@, value: stored@ }]);
        self.write_batch(t)
    }

    /// A batch that removes every entry of column `col` under `prefix`: one
    /// deletion under the prefix, or, where the backend cannot delete under
    /// it, the removal of each entry that a scan finds there.
    fn removal_under(&self, col: u32, prefix: &[u8]) -> (t: DBTransaction)
        requires
            self.wf(),
            col < NUM_COLUMNS,
        ensures
            ops_within(tx_ops(t), NUM_COLUMNS as nat),
            prefixes_deletable(tx_ops(t)),
            forall|i: int| 0 <= i < tx_ops(t).len() ==> !((#[trigger] tx_ops(t)[i]) is Insert),
            apply_ops(self.contents(), tx_ops(t)) == apply_op(
                self.contents(),
                WriteOp::DeletePrefix { col: col, prefix: prefix@ },
            ),
    {
        let mut t: DBTransaction = tx_with_capacity(4);
        if can_delete_under(prefix) {
            tx_delete_prefix(&mut t, col, prefix);
            proof {
                let op = WriteOp::DeletePrefix { col: col, prefix: prefix@ };
                assert(tx_ops(t) == seq![op]);
                lemma_apply_one(self.contents(), op);
            }
            return t;
        }
        let items: Vec<(Vec<u8>, Vec<u8>)> = self.state_kv_db.iter_with_prefix(col, prefix);
        let ghost rows = pairs_view(items@);
        let mut i: usize = 0;
        while i < items.len()
            invariant
                i <= items@.len(),
                rows == pairs_view(items@),
                tx_ops(t).len() == i,
                forall|j: int|
                    0 <= j < i ==> (#[trigger] tx_ops(t)[j]) == (WriteOp::Delete {
                        col: col,
                        key: rows[j].0,
                    }),
            decreases items@.len() - i,
        {
            tx_delete(&mut t, col, items[i].0.as_slice());
            i += 1;
        }
        proof {
            lemma_scan_removals(self.contents(), col, prefix@, rows, tx_ops(t));
        }
        t
    }

    fn delete_prefix_impl(&mut self, col: u32, prefix: &[u8]) -> (r: Result<(), StateKvError>)
        requires
            old(self).wf(),
            col < NUM_COLUMNS,
        ensures
            final(self).wf(),
            write_result(
                old(self).contents(),
                final(self).contents(),
                seq![WriteOp::DeletePrefix { col: col, prefix: prefix@ }],
                r,
            ),
    {
        let t: DBTransaction = self.removal_under(col, prefix);
        proof {
            lemma_apply_one(self.contents(), WriteOp::DeletePrefix { col: col, prefix: prefix@ });
        }
        self.write_batch(t)
    }

    fn delete_impl(&mut self, col: u32, key: &[u8]) -> (r: Result<(), StateKvError>)
        requires
            old(self).wf(),
            col < NUM_COLUMNS,
        ensures
            final(self).wf(),
            write_result(
                old(self).contents(),
                final(self).contents(),
                seq![WriteOp::Delete { col: col, key: key@ }],
                r,
            ),
    {
        let mut t: DBTransaction = tx_with_capacity(1);
        tx_delete(&mut t, col, key);
        assert(tx_ops(t) == seq![WriteOp::Delete { col: col, key: key@ }]);
        self.write_batch(t)
    }

    fn get_impl(&self, col: u32, real_key: &[u8]) -> (r: Result<Option<Vec<u8>>, StateKvError>)
        requires
            self.wf(),
        ensures
            match r {
                Ok(stored) => opt_view(stored) == lookup(self.contents(), col, real_key@),
                Err(e) => e is Database,
            },
    {
        handle_err(self.state_kv_db.get(col, real_key))
    }

    fn get_value_impl(&self, col: u32, real_key: &[u8]) -> (r: Result<Option<Vec<u8>>, StateKvError>)
        requires
            self.wf(),
        ensures
            read_result(lookup(self.contents(), col, real_key@), r),
    {
        match self.get_impl(col, real_key) {
            Ok(Some(stored)) => match decode_stored(stored.as_slice()) {
                Some(value) => Ok(value),
                None => Err(StateKvError::Corrupted),
            },
            Ok(None) => Ok(None),
            Err(e) => Err(e),
        }
    }

    fn get_text_impl(&self, col: u32, real_key: &[u8]) -> (r: Result<Option<String>, StateKvError>)
        requires
            self.wf(),
        ensures
            text_result(lookup(self.contents(), col, real_key@), r),
    {
        match self.get_impl(col, real_key) {
            Ok(Some(stored)) => Ok(Some(text_from_utf8_lossy(stored.as_slice()))),
            Ok(None) => Ok(None),
            Err(e) => Err(e),
        }
    }

    fn get_kys_impl(&self, col: u32, scan: &[u8], prefix_len: usize) -> (r: Result<
        Option<Vec<(Vec<u8>, Option<Vec<u8>>)>>,
        StateKvError,
    >)
        requires
            self.wf(),
            col < NUM_COLUMNS,
            prefix_len <= scan@.len(),
            scans(scan@, scan@.subrange(0, prefix_len as int)),
        ensures
            listing_result(self.contents(), col, scan@, scan@.subrange(0, prefix_len as int), r),
    {
        let items: Vec<(Vec<u8>, Vec<u8>)> = self.state_kv_db.iter_with_prefix(col, scan);
        let ghost c = self.contents();
        let ghost prefix = scan@.subrange(0, prefix_len as int);
        let ghost rows = pairs_view(items@);
        let mut out: Vec<(Vec<u8>, Option<Vec<u8>>)> = Vec::new();
        let mut i: usize = 0;
        while i < items.len()
            invariant
                i <= items@.len(),
                out@.len() == i,
                c == self.contents(),
                prefix == scan@.subrange(0, prefix_len as int),
                prefix.len() == prefix_len,
                rows == pairs_view(items@),
                is_scan(c, col, scan@, rows),
                forall|j: int|
                    0 <= j < i ==> {
                        &&& logical_key(rows[j].0, prefix.len()) == Some((#[trigger] out@[j]).0@)
                        &&& decode_value(rows[j].1) == Some(opt_view(out@[j].1))
                    },
            decreases items@.len() - i,
        {
            let key: Option<Vec<u8>> = strip_prefix(items[i].0.as_slice(), prefix_len);
            let value: Option<Option<Vec<u8>>> = decode_stored(items[i].1.as_slice());
            assert(rows[i as int] == (items@[i as int].0@, items@[i as int].1@));
            match key {
                Some(k) => match value {
                    Some(v) => {
                        out.push((k, v));
                    },
                    None => {
                        proof {
                            let bad = rows[i as int].0;
                            assert(c.contains_key((col, bad)) && scan@.is_prefix_of(bad));
                            assert(decode_value(c[(col, bad)]) is None);
                            assert(!well_formed_under(c, col, scan@, prefix));
                        }
                        return Err(StateKvError::Corrupted);
                    },
                },
                None => {
                    proof {
                        let bad = rows[i as int].0;
                        assert(c.contains_key((col, bad)) && scan@.is_prefix_of(bad));
                        assert(logical_key(bad, prefix.len()) is None);
                        assert(!well_formed_under(c, col, scan@, prefix));
                    }
                    return Err(StateKvError::Corrupted);
                },
            }
            i += 1;
        }
        if out.len() == 0 {
            assert forall|k: Seq<u8>| #[trigger] c.contains_key((col, k)) implies !scan@.is_prefix_of(
                k,
            ) by {
                if scan@.is_prefix_of(k) {
                    let w = choose|w: int| 0 <= w < rows.len() && (#[trigger] rows[w]).0 == k;
                }
            }
            Ok(None)
        } else {
            let ghost list = entries_view(out@);
            proof {
                assert forall|j: int| 0 <= j < list.len() implies {
                    &&& c.contains_key((col, state_key(prefix, (#[trigger] list[j]).0)))
                    &&& decode_value(c[(col, state_key(prefix, list[j].0))]) == Some(list[j].1)
                } by {
                    assert(list[j] == (out@[j].0@, opt_view(out@[j].1)));
                    assert(scan@.is_prefix_of(rows[j].0));
                    lemma_scan_under_prefix(scan@, prefix, rows[j].0);
                    lemma_rebuild(prefix, rows[j].0, list[j].0);
                }
                assert forall|k: Seq<u8>| #[trigger]
                    c.contains_key((col, k)) && scan@.is_prefix_of(k) implies exists|j: int|
                    0 <= j < list.len() && k == state_key(prefix, (#[trigger] list[j]).0) by {
                    let w = choose|w: int| 0 <= w < rows.len() && (#[trigger] rows[w]).0 == k;
                    assert(list[w] == (out@[w].0@, opt_view(out@[w].1)));
                    lemma_scan_under_prefix(scan@, prefix, rows[w].0);
                    lemma_rebuild(prefix, rows[w].0, list[w].0);
                }
                assert forall|a: int, b: int| 0 <= a < b < list.len() implies crate::db::bytes_lt(
                    (#[trigger] list[a]).0,
                    (#[trigger] list[b]).0,
                ) by {
                    assert(list[a] == (out@[a].0@, opt_view(out@[a].1)));
                    assert(list[b] == (out@[b].0@, opt_view(out@[b].1)));
                    assert(scan@.is_prefix_of(rows[a].0));
                    assert(scan@.is_prefix_of(rows[b].0));
                    lemma_scan_under_prefix(scan@, prefix, rows[a].0);
                    lemma_scan_under_prefix(scan@, prefix, rows[b].0);
                    lemma_rebuild(prefix, rows[a].0, list[a].0);
                    lemma_rebuild(prefix, rows[b].0, list[b].0);
                    lemma_bytes_lt_common_prefix(prefix.push(SEPARATOR), list[a].0, list[b].0);
                }
            }
            Ok(Some(out))
        }
    }

    /// Writes one top-level entry of block `hash` at once, without a
    /// transaction. `None` writes an explicit deletion.
    pub fn set_kv(&mut self, hash: BlockHash, key: &[u8], value: Option<&[u8]>) -> (r: Result<
        (),
        StateKvError,
    >)
        requires
            old(self).wf(),
        ensures
            final(self).wf(),
            write_result(
                old(self).contents(),
                final(self).contents(),
                seq![set_op(hash@, key@, opt_slice_view(value))],
                r,
            ),
    {
        let real_key: Vec<u8> = real_key(&hash, key);
        let stored: Vec<u8> = encode_stored(value);
        self.set_kv_impl(columns::STATE_KV, real_key.as_slice(), stored.as_slice())
    }

    /// Writes one entry of `child` in block `hash` at once, without a
    /// transaction. `None` writes an explicit deletion.
    pub fn set_child_kv(
        &mut self,
        hash: BlockHash,
        child: &[u8],
        key: &[u8],
        value: Option<&[u8]>,
    ) -> (r: Result<(), StateKvError>)
        requires
            old(self).wf(),
        ensures
            final(self).wf(),
            write_result(
                old(self).contents(),
                final(self).contents(),
                seq![set_child_op(hash@, child@, key@, opt_slice_view(value))],
                r,
            ),
    {
        let real_key: Vec<u8> = real_child_key(&hash, child, key);
        let stored: Vec<u8> = encode_stored(value);
        self.set_kv_impl(columns::STATE_CHILD_KV, real_key.as_slice(), stored.as_slice())
    }

    /// A transaction bound to `hash`, with nothing staged.
    pub fn transaction(&self, hash: BlockHash) -> (t: StateKvTransaction)
        ensures
            t.hash() == hash@,
            t.ops() == Seq::<WriteOp>::empty(),
            t.wf(),
    {
        StateKvTransaction::bind(hash, self.state_kv_db.transaction())
    }

    /// Writes all staged operations of a transaction as one batch: all of
    /// them take effect, in the order in which they were staged, or none
    /// does.
    pub fn commit(&mut self, t: StateKvTransaction) -> (r: Result<(), StateKvError>)
        requires
            old(self).wf(),
            t.wf(),
        ensures
            final(self).wf(),
            write_result(old(self).contents(), final(self).contents(), t.ops(), r),
    {
        let inner: DBTransaction = t.into_inner();
        assert(ops_within(tx_ops(inner), NUM_COLUMNS as nat)) by {
            assert forall|i: int| 0 <= i < tx_ops(inner).len() implies (#[trigger] tx_ops(
                inner,
            )[i]).col() < NUM_COLUMNS by {
                assert(crate::transaction::staged_under(t.hash(), t.ops()[i]));
            }
        }
        self.write_batch(inner)
    }

    /// The value of the top-level `key` in block `hash`: `None` where the
    /// block did not touch the key or deleted it.
    pub fn get(&self, hash: BlockHash, key: &[u8]) -> (r: Result<Option<Vec<u8>>, StateKvError>)
        requires
            self.wf(),
        ensures
            read_result(lookup(self.contents(), columns::STATE_KV, state_key(hash@, key@)), r),
    {
        let real_key: Vec<u8> = real_key(&hash, key);
        self.get_value_impl(columns::STATE_KV, real_key.as_slice())
    }

    /// The value of `key` of `child` in block `hash`: `None` where the block
    /// did not touch the key or deleted it.
    pub fn get_child(&self, hash: BlockHash, child: &[u8], key: &[u8]) -> (r: Result<
        Option<Vec<u8>>,
        StateKvError,
    >)
        requires
            self.wf(),
        ensures
            read_result(
                lookup(self.contents(), columns::STATE_CHILD_KV, child_key(hash@, child@, key@)),
                r,
            ),
    {
        let real_key: Vec<u8> = real_child_key(&hash, child, key);
        self.get_value_impl(columns::STATE_CHILD_KV, real_key.as_slice())
    }

    /// All top-level entries of block `hash`, in ascending order of their
    /// keys, a deleted key with `None` as its value. `None` where the block
    /// has no entry.
    pub fn get_kvs_by_hash(&self, hash: BlockHash) -> (r: Result<
        Option<Vec<(Vec<u8>, Option<Vec<u8>>)>>,
        StateKvError,
    >)
        requires
            self.wf(),
        ensures
            block_listing(self.contents(), hash@, r),
    {
        assert(hash@.subrange(0, HASH_LEN as int) == hash@);
        self.get_kys_impl(columns::STATE_KV, hash.as_slice(), HASH_LEN)
    }

    /// All entries of `child` in block `hash`, in ascending order of their
    /// keys, a deleted key with `None` as its value. `None` where the child
    /// has no entry in that block. The entries of a child whose id only
    /// begins with `child` are none of them.
    pub fn get_child_kvs_by_hash(&self, hash: BlockHash, child: &[u8]) -> (r: Result<
        Option<Vec<(Vec<u8>, Option<Vec<u8>>)>>,
        StateKvError,
    >)
        requires
            self.wf(),
        ensures
            child_listing(self.contents(), hash@, child@, r),
    {
        let lookup_key: Vec<u8> = real_child_scan(&hash, child);
        assert(lookup_key@.subrange(0, lookup_key@.len() - 1) == child_prefix(hash@, child@));
        self.get_kys_impl(
            columns::STATE_CHILD_KV,
            lookup_key.as_slice(),
            lookup_key.len() - 1,
        )
    }

    /// Removes all top-level entries of block `hash`.
    pub fn delete_kvs_by_hash(&mut self, hash: BlockHash) -> (r: Result<(), StateKvError>)
        requires
            old(self).wf(),
        ensures
            final(self).wf(),
            write_result(
                old(self).contents(),
                final(self).contents(),
                seq![WriteOp::DeletePrefix { col: columns::STATE_KV, prefix: hash@ }],
                r,
            ),
    {
        self.delete_prefix_impl(columns::STATE_KV, hash.as_slice())
    }

    /// Removes all entries of `child` in block `hash`, and none of a child
    /// whose id only begins with `child`.
    pub fn delete_child_kvs_by_hash(&mut self, hash: BlockHash, child: &[u8]) -> (r: Result<
        (),
        StateKvError,
    >)
        requires
            old(self).wf(),
        ensures
            final(self).wf(),
            write_result(
                old(self).contents(),
                final(self).contents(),
                seq![
                    WriteOp::DeletePrefix {
                        col: columns::STATE_CHILD_KV,
                        prefix: child_scan(hash@, child@),
                    },
                ],
                r,
            ),
    {
        let lookup_key: Vec<u8> = real_child_scan(&hash, child);
        self.delete_prefix_impl(columns::STATE_CHILD_KV, lookup_key.as_slice())
    }

    /// Stores the storage operations of extrinsic `index` of block `number`,
    /// as the bytes of the text.
    pub fn set_extrinsic_changes(&mut self, number: u64, index: u32, json: String) -> (r: Result<
        (),
        StateKvError,
    >)
        requires
            old(self).wf(),
        ensures
            final(self).wf(),
            write_result(
                old(self).contents(),
                final(self).contents(),
                seq![
                    WriteOp::Insert {
                        col: columns::EXTRINSIC_CHANGES,
                        key: indexed_key(number, index),
                        value: encode_utf8(json@),
                    },
                ],
                r,
            ),
    {
        let key: Vec<u8> = tracing_key(number, index);
        self.set_kv_impl(columns::EXTRINSIC_CHANGES, key.as_slice(), json.as_str().as_bytes())
    }

    /// The stored storage operations of extrinsic `index` of block `number`.
    pub fn get_extrinsic_changes(&self, number: u64, index: u32) -> (r: Result<
        Option<String>,
        StateKvError,
    >)
        requires
            self.wf(),
        ensures
            text_result(
                lookup(self.contents(), columns::EXTRINSIC_CHANGES, indexed_key(number, index)),
                r,
            ),
    {
        let key: Vec<u8> = tracing_key(number, index);
        self.get_text_impl(columns::EXTRINSIC_CHANGES, key.as_slice())
    }

    /// Removes the stored storage operations of extrinsic `index` of block
    /// `number`.
    pub fn delete_extrinsic_changes(&mut self, number: u64, index: u32) -> (r: Result<
        (),
        StateKvError,
    >)
        requires
            old(self).wf(),
        ensures
            final(self).wf(),
            write_result(
                old(self).contents(),
                final(self).contents(),
                seq![
                    WriteOp::Delete {
                        col: columns::EXTRINSIC_CHANGES,
                        key: indexed_key(number, index),
                    },
                ],
                r,
            ),
    {
        let key: Vec<u8> = tracing_key(number, index);
        self.delete_impl(columns::EXTRINSIC_CHANGES, key.as_slice())
    }

    /// Records `hash` and `number` for each other, both directions in one
    /// batch. Where the number was recorded for another hash, or the hash
    /// for another number, that pair is removed in the same batch, so that
    /// at most one hash is recorded for a number and each is found by the
    /// other.
    pub fn set_hash_and_number(&mut self, hash: BlockHash, number: u64) -> (r: Result<
        (),
        StateKvError,
    >)
        requires
            old(self).wf(),
        ensures
            final(self).wf(),
            write_result(
                old(self).contents(),
                final(self).contents(),
                index_ops(old(self).contents(), hash@, number),
                r,
            ),
    {
        let bytes: Vec<u8> = u64_to_le_bytes(number);
        let by_number: Option<Vec<u8>> = match self.get_impl(
            columns::NUMBER_TO_HASH,
            bytes.as_slice(),
        ) {
            Ok(stored) => stored,
            Err(e) => {
                return Err(e);
            },
        };
        let by_hash: Option<Vec<u8>> = match self.get_impl(columns::HASH_TO_NUMBER, hash.as_slice()) {
            Ok(stored) => stored,
            Err(e) => {
                return Err(e);
            },
        };
        let mut t: DBTransaction = tx_with_capacity(4);
        match &by_number {
            Some(old_hash) => {
                if !bytes_eq(old_hash.as_slice(), hash.as_slice()) {
                    tx_delete(&mut t, columns::HASH_TO_NUMBER, old_hash.as_slice());
                }
            },
            None => {},
        }
        match &by_hash {
            Some(old_number) => {
                if !bytes_eq(old_number.as_slice(), bytes.as_slice()) {
                    tx_delete(&mut t, columns::NUMBER_TO_HASH, old_number.as_slice());
                }
            },
            None => {},
        }
        assert(tx_ops(t) =~= stale_ops(self.contents(), hash@, number));
        tx_put(&mut t, columns::HASH_TO_NUMBER, hash.as_slice(), bytes.as_slice());
        tx_put(&mut t, columns::NUMBER_TO_HASH, bytes.as_slice(), hash.as_slice());
        assert(tx_ops(t) =~= index_ops(self.contents(), hash@, number));
        self.write_batch(t)
    }

    /// The recorded number of block `hash`.
    pub fn get_number(&self, hash: BlockHash) -> (r: Result<Option<u64>, StateKvError>)
        requires
            self.wf(),
        ensures
            number_result(lookup(self.contents(), columns::HASH_TO_NUMBER, hash@), r),
    {
        match self.get_impl(columns::HASH_TO_NUMBER, hash.as_slice()) {
            Ok(Some(bytes)) => {
                if bytes.len() == 8 {
                    Ok(Some(u64_from_le_bytes(bytes.as_slice())))
                } else {
                    Err(StateKvError::Corrupted)
                }
            },
            Ok(None) => Ok(None),
            Err(e) => Err(e),
        }
    }

    /// The recorded hash of block `number`.
    pub fn get_hash(&self, number: u64) -> (r: Result<Option<BlockHash>, StateKvError>)
        requires
            self.wf(),
        ensures
            hash_result(hash_of(self.contents(), number), r),
    {
        let bytes: Vec<u8> = u64_to_le_bytes(number);
        match self.get_impl(columns::NUMBER_TO_HASH, bytes.as_slice()) {
            Ok(Some(stored)) => match to_hash(stored.as_slice()) {
                Some(hash) => Ok(Some(hash)),
                None => Err(StateKvError::Corrupted),
            },
            Ok(None) => Ok(None),
            Err(e) => Err(e),
        }
    }

    /// Stores the call trace of extrinsic `index` of block `number`, as the
    /// bytes of the text.
    pub fn set_contract_tracing(&mut self, number: u64, index: u32, tracing: String) -> (r: Result<
        (),
        StateKvError,
    >)
        requires
            old(self).wf(),
        ensures
            final(self).wf(),
            write_result(
                old(self).contents(),
                final(self).contents(),
                seq![
                    WriteOp::Insert {
                        col: columns::TRACING,
                        key: indexed_key(number, index),
                        value: encode_utf8(tracing@),
                    },
                ],
                r,
            ),
    {
        let key: Vec<u8> = tracing_key(number, index);
        self.set_kv_impl(columns::TRACING, key.as_slice(), tracing.as_str().as_bytes())
    }

    /// The stored call trace of extrinsic `index` of block `number`.
    pub fn get_contract_tracing(&self, number: u64, index: u32) -> (r: Result<
        Option<String>,
        StateKvError,
    >)
        requires
            self.wf(),
        ensures
            text_result(lookup(self.contents(), columns::TRACING, indexed_key(number, index)), r),
    {
        let key: Vec<u8> = tracing_key(number, index);
        self.get_text_impl(columns::TRACING, key.as_slice())
    }

    /// Removes the stored call trace of extrinsic `index` of block `number`.
    pub fn remove_contract_tracing(&mut self, number: u64, index: u32) -> (r: Result<
        (),
        StateKvError,
    >)
        requires
            old(self).wf(),
        ensures
            final(self).wf(),
            write_result(
                old(self).contents(),
                final(self).contents(),
                seq![WriteOp::Delete { col: columns::TRACING, key: indexed_key(number, index) }],
                r,
            ),
    {
        let key: Vec<u8> = tracing_key(number, index);
        self.delete_impl(columns::TRACING, key.as_slice())
    }

    /// Removes the stored call traces of all extrinsics of block `number`.
    pub fn remove_contract_tracings_by_number(&mut self, number: u64) -> (r: Result<
        (),
        StateKvError,
    >)
        requires
            old(self).wf(),
        ensures
            final(self).wf(),
            write_result(
                old(self).contents(),
                final(self).contents(),
                seq![
                    WriteOp::DeletePrefix {
                        col: columns::TRACING,
                        prefix: spec_u64_to_le_bytes(number),
                    },
                ],
                r,
            ),
    {
        let prefix: Vec<u8> = u64_to_le_bytes(number);
        self.delete_prefix_impl(columns::TRACING, prefix.as_slice())
    }

    /// Removes every record of block `number`, in one batch: its state
    /// entries, the entries of all its children, the storage operations of
    /// its extrinsics and its contract traces. The recorded hash and number
    /// stay. Fails, with nothing changed, where no hash is recorded for the
    /// number.
    pub fn revert_all(&mut self, number: u64) -> (r: Result<(), StateKvError>)
        requires
            old(self).wf(),
        ensures
            final(self).wf(),
            revert_result(old(self).contents(), final(self).contents(), number, r),
    {
        let hash: BlockHash = match self.get_hash(number) {
            Ok(Some(hash)) => hash,
            Ok(None) => {
                return Err(StateKvError::NoHashForNumber(number));
            },
            Err(e) => {
                return Err(e);
            },
        };
        let lookup_key: Vec<u8> = real_children_prefix(&hash);
        let prefix: Vec<u8> = u64_to_le_bytes(number);
        let mut t: DBTransaction = self.removal_under(columns::STATE_KV, hash.as_slice());
        let ghost first = tx_ops(t);
        tx_delete_prefix(&mut t, columns::STATE_CHILD_KV, lookup_key.as_slice());
        tx_delete_prefix(&mut t, columns::EXTRINSIC_CHANGES, prefix.as_slice());
        tx_delete_prefix(&mut t, columns::TRACING, prefix.as_slice());
        proof {
            let c = self.contents();
            let ops = revert_ops(hash@, number);
            let staged = tx_ops(t);
            assert(staged == first.push(ops[1]).push(ops[2]).push(ops[3]));
            assert(ops == seq![ops[0]].push(ops[1]).push(ops[2]).push(ops[3]));
            lemma_apply_one(c, ops[0]);
            lemma_apply_push(c, first, ops[1]);
            lemma_apply_push(c, first.push(ops[1]), ops[2]);
            lemma_apply_push(c, first.push(ops[1]).push(ops[2]), ops[3]);
            lemma_apply_push(c, seq![ops[0]], ops[1]);
            lemma_apply_push(c, seq![ops[0]].push(ops[1]), ops[2]);
            lemma_apply_push(c, seq![ops[0]].push(ops[1]).push(ops[2]), ops[3]);
            assert(apply_ops(c, staged) == reverted(c, hash@, number));
            assert(!all_ff(ops[1].key())) by {
                assert(ops[1].key()[HASH_LEN as int] == SEPARATOR);
            }
            assert(ops[2].key().len() == 8 && ops[3].key().len() == 8) by {
                lemma_auto_spec_u64_to_from_le_bytes();
            }
            assert forall|i: int| 0 <= i < staged.len() implies {
                &&& (#[trigger] staged[i]).col() < NUM_COLUMNS
                &&& !(staged[i] is Insert)
                &&& staged[i] is DeletePrefix ==> deletable_under(staged[i].key())
            } by {
                if i < first.len() {
                    assert(staged[i] == first[i]);
                }
            }
        }
        self.write_batch(t)
    }
}

impl crate::statekv::StateKv for StateKv {
    type Transaction = StateKvTransaction;

    open spec fn kv_contents(&self) -> Contents {
        self.contents()
    }

    open spec fn kv_wf(&self) -> bool {
        self.wf()
    }

    fn set_kv(
        &mut self,
        hash: BlockHash,
        key: &[u8],
        value: Option<&[u8]>,
    ) -> (r: Result<(), StateKvError>) {
        StateKv::set_kv(self, hash, key, value)
    }

    fn set_child_kv(
        &mut self,
        hash: BlockHash,
        child: &[u8],
        key: &[u8],
        value: Option<&[u8]>,
    ) -> (r: Result<(), StateKvError>) {
        StateKv::set_child_kv(self, hash, child, key, value)
    }

    fn commit(&mut self, t: StateKvTransaction) -> (r: Result<(), StateKvError>) {
        StateKv::commit(self, t)
    }

    fn delete_kvs_by_hash(&mut self, hash: BlockHash) -> (r: Result<(), StateKvError>) {
        StateKv::delete_kvs_by_hash(self, hash)
    }

    fn delete_child_kvs_by_hash(
        &mut self,
        hash: BlockHash,
        child: &[u8],
    ) -> (r: Result<(), StateKvError>) {
        StateKv::delete_child_kvs_by_hash(self, hash, child)
    }

    fn set_extrinsic_changes(
        &mut self,
        number: u64,
        index: u32,
        json: String,
    ) -> (r: Result<(), StateKvError>) {
        StateKv::set_extrinsic_changes(self, number, index, json)
    }

    fn delete_extrinsic_changes(
        &mut self,
        number: u64,
        index: u32,
    ) -> (r: Result<(), StateKvError>) {
        StateKv::delete_extrinsic_changes(self, number, index)
    }

    fn set_hash_and_number(
        &mut self,
        hash: BlockHash,
        number: u64,
    ) -> (r: Result<(), StateKvError>) {
        StateKv::set_hash_and_number(self, hash, number)
    }

    fn set_contract_tracing(
        &mut self,
        number: u64,
        index: u32,
        tracing: String,
    ) -> (r: Result<(), StateKvError>) {
        StateKv::set_contract_tracing(self, number, index, tracing)
    }

    fn remove_contract_tracing(
        &mut self,
        number: u64,
        index: u32,
    ) -> (r: Result<(), StateKvError>) {
        StateKv::remove_contract_tracing(self, number, index)
    }

    fn remove_contract_tracings_by_number(&mut self, number: u64) -> (r: Result<(), StateKvError>) {
        StateKv::remove_contract_tracings_by_number(self, number)
    }

    fn revert_all(&mut self, number: u64) -> (r: Result<(), StateKvError>) {
        StateKv::revert_all(self, number)
    }

    fn transaction(&self, hash: BlockHash) -> (r: StateKvTransaction) {
        StateKv::transaction(self, hash)
    }

    fn get(&self, hash: BlockHash, key: &[u8]) -> (r: Result<Option<Vec<u8>>, StateKvError>) {
        StateKv::get(self, hash, key)
    }

    fn get_child(
        &self,
        hash: BlockHash,
        child: &[u8],
        key: &[u8],
    ) -> (r: Result<Option<Vec<u8>>, StateKvError>) {
        StateKv::get_child(self, hash, child, key)
    }

    fn get_kvs_by_hash(
        &self,
        hash: BlockHash,
    ) -> (r: Result<Option<Vec<(Vec<u8>, Option<Vec<u8>>)>>, StateKvError>) {
        StateKv::get_kvs_by_hash(self, hash)
    }

    fn get_child_kvs_by_hash(
        &self,
        hash: BlockHash,
        child: &[u8],
    ) -> (r: Result<Option<Vec<(Vec<u8>, Option<Vec<u8>>)>>, StateKvError>) {
        StateKv::get_child_kvs_by_hash(self, hash, child)
    }

    fn get_extrinsic_changes(
        &self,
        number: u64,
        index: u32,
    ) -> (r: Result<Option<String>, StateKvError>) {
        StateKv::get_extrinsic_changes(self, number, index)
    }

    fn get_number(&self, hash: BlockHash) -> (r: Result<Option<u64>, StateKvError>) {
        StateKv::get_number(self, hash)
    }

    fn get_hash(&self, number: u64) -> (r: Result<Option<BlockHash>, StateKvError>) {
        StateKv::get_hash(self, number)
    }

    fn get_contract_tracing(
        &self,
        number: u64,
        index: u32,
    ) -> (r: Result<Option<String>, StateKvError>) {
        StateKv::get_contract_tracing(self, number, index)
    }
}

} // verus!
