//! The column store that the engine writes to and reads from.
//!
//! The store itself is a backend of the `kvdb` crate. Nothing in here is
//! proved: this file states, over a mathematical model of what the backend
//! holds, what each of its operations is taken to do.

use kvdb::{DBTransaction, KeyValueDB};
use std::sync::Arc;
use vstd::prelude::*;

verus! {

/// Number of columns that the store uses.
pub const NUM_COLUMNS: u32 = 9;

/// Meta column. The set of keys in the column is shared by full storages.
pub const COLUMN_META: u32 = 0;

/// What a store holds: the value under each column and key.
pub type Contents = Map<(u32, Seq<u8>), Seq<u8>>;

/// One operation of a write batch.
pub enum WriteOp {
    /// Put `value` under `key`, over any value that is there.
    Insert { col: u32, key: Seq<u8>, value: Seq<u8> },
    /// Remove the value under `key`.
    Delete { col: u32, key: Seq<u8> },
    /// Remove every value whose key starts with `prefix`.
    DeletePrefix { col: u32, prefix: Seq<u8> },
}

impl WriteOp {
    /// The column that the operation works on.
    pub open spec fn col(self) -> u32 {
        match self {
            WriteOp::Insert { col, .. } => col,
            WriteOp::Delete { col, .. } => col,
            WriteOp::DeletePrefix { col, .. } => col,
        }
    }

    /// The key, or the prefix, that the operation works on.
    pub open spec fn key(self) -> Seq<u8> {
        match self {
            WriteOp::Insert { key, .. } => key,
            WriteOp::Delete { key, .. } => key,
            WriteOp::DeletePrefix { prefix, .. } => prefix,
        }
    }
}

/// The value under `key` in column `col`, if there is one.
pub open spec fn lookup(c: Contents, col: u32, key: Seq<u8>) -> Option<Seq<u8>> {
    if c.contains_key((col, key)) {
        Some(c[(col, key)])
    } else {
        None
    }
}

/// The keys of column `col` that start with `prefix`.
pub open spec fn keys_under(col: u32, prefix: Seq<u8>) -> Set<(u32, Seq<u8>)> {
    Set::new(|k: (u32, Seq<u8>)| k.0 == col && prefix.is_prefix_of(k.1))
}

/// What a store holds after one operation.
pub open spec fn apply_op(c: Contents, op: WriteOp) -> Contents {
    match op {
        WriteOp::Insert { col, key, value } => c.insert((col, key), value),
        WriteOp::Delete { col, key } => c.remove((col, key)),
        WriteOp::DeletePrefix { col, prefix } => c.remove_keys(keys_under(col, prefix)),
    }
}

/// What a store holds after a batch of operations, applied in their order.
pub open spec fn apply_ops(c: Contents, ops: Seq<WriteOp>) -> Contents
    decreases ops.len(),
{
    if ops.len() == 0 {
        c
    } else {
        apply_op(apply_ops(c, ops.drop_last()), ops.last())
    }
}

/// Whether every operation of a batch works on one of the first `columns`
/// columns.
pub open spec fn ops_within(ops: Seq<WriteOp>, columns: nat) -> bool {
    forall|i: int| 0 <= i < ops.len() ==> (#[trigger] ops[i]).col() < columns
}

/// Whether no prefix deletion of a batch follows an insert of it.
pub open spec fn deletes_before_inserts(ops: Seq<WriteOp>) -> bool {
    forall|i: int, j: int|
        0 <= i < j < ops.len() ==> !((#[trigger] ops[i]) is Insert && (#[trigger] ops[j])
            is DeletePrefix)
}

/// Whether every byte is `0xff`: no byte string of the same length or a
/// shorter one comes behind such a one.
pub open spec fn all_ff(bytes: Seq<u8>) -> bool {
    forall|i: int| 0 <= i < bytes.len() ==> bytes[i] == 0xff
}

/// The length up to which the backend on disk deletes under a prefix whose
/// bytes are all `0xff`.
pub const MAX_ENDLESS_PREFIX: usize = 16;

/// Whether a prefix has a successor, or is short enough to be deleted under
/// without one.
pub open spec fn deletable_under(prefix: Seq<u8>) -> bool {
    !all_ff(prefix) || prefix.len() <= MAX_ENDLESS_PREFIX
}

/// Whether the backend can delete under every prefix that a batch deletes
/// under.
pub open spec fn prefixes_deletable(ops: Seq<WriteOp>) -> bool {
    forall|i: int|
        0 <= i < ops.len() && (#[trigger] ops[i]) is DeletePrefix ==> deletable_under(ops[i].key())
}

/// Byte strings in their order as keys: `a` comes before `b`.
pub open spec fn bytes_lt(a: Seq<u8>, b: Seq<u8>) -> bool
    decreases a.len(),
{
    if b.len() == 0 {
        false
    } else if a.len() == 0 {
        true
    } else if a[0] != b[0] {
        a[0] < b[0]
    } else {
        bytes_lt(a.drop_first(), b.drop_first())
    }
}

/// Key and value of each pair, as byte sequences.
pub open spec fn pairs_view(pairs: Seq<(Vec<u8>, Vec<u8>)>) -> Seq<(Seq<u8>, Seq<u8>)> {
    Seq::new(pairs.len(), |i: int| (pairs[i].0@, pairs[i].1@))
}

/// Whether `items` is the scan of column `col` under `prefix`: every item is
/// an entry of the column whose key starts with the prefix, every such entry
/// is among the items, and the keys ascend.
pub open spec fn is_scan(c: Contents, col: u32, prefix: Seq<u8>, items: Seq<(Seq<u8>, Seq<u8>)>) -> bool {
    &&& forall|i: int|
        0 <= i < items.len() ==> {
            &&& prefix.is_prefix_of((#[trigger] items[i]).0)
            &&& c.contains_key((col, items[i].0))
            &&& c[(col, items[i].0)] == items[i].1
        }
    &&& forall|k: Seq<u8>|
        #[trigger] c.contains_key((col, k)) && prefix.is_prefix_of(k) ==> exists|i: int|
            0 <= i < items.len() && (#[trigger] items[i]).0 == k
    &&& forall|i: int, j: int|
        0 <= i < j < items.len() ==> bytes_lt((#[trigger] items[i]).0, (#[trigger] items[j]).0)
}

/// `kvdb::DBTransaction`, a write batch of the backend. Nothing inside it
/// is seen; what it holds goes by the name `tx_ops`.
#[verifier::external_type_specification]
#[verifier::external_body]
pub struct ExDBTransaction(DBTransaction);

/// `std::io::Error`, the error of a backend call. Nothing inside it is
/// seen.
#[verifier::external_type_specification]
#[verifier::external_body]
pub struct ExIoError(std::io::Error);

/// A handle on a backend of the `kvdb` crate, held as a shared
/// `dyn KeyValueDB`. Nothing inside it is seen: what the backend holds goes
/// by the name `db_contents`, the number of its columns by `db_columns`. The
/// store owns the handle alone, and every write goes through `&mut`, so
/// that what the handle stands for changes only where its owner changes it.
#[verifier::external_body]
pub struct ColumnDb {
    inner: Arc<dyn KeyValueDB>,
}

/// What the backend behind a handle holds.
pub uninterp spec fn db_contents(db: ColumnDb) -> Map<(u32, Seq<u8>), Seq<u8>>;

/// The number of columns that the backend behind a handle was made with.
pub uninterp spec fn db_columns(db: ColumnDb) -> nat;

/// The operations that a write batch holds, in the order in which they were
/// staged.
pub uninterp spec fn tx_ops(t: DBTransaction) -> Seq<WriteOp>;

impl ColumnDb {
    /// `Arc::new` on a backend: takes it into a handle. Nothing is claimed of
    /// what it holds, nor of its columns.
    #[verifier::external_body]
    pub(crate) fn wrap<D: KeyValueDB + 'static>(backend: D) -> (db: ColumnDb) {
        ColumnDb { inner: Arc::new(backend) }
    }

    /// `KeyValueDB::get` on an empty key, asked only whether it succeeds. A
    /// backend answers a read of a column that it does not have with an
    /// error, so success shows that the column is there.
    #[verifier::external_body]
    pub(crate) fn has_column(&self, col: u32) -> (found: bool)
        ensures
            found ==> col < db_columns(*self),
    {
        self.inner.get(col, &[]).is_ok()
    }

    /// `KeyValueDB::get`: where it succeeds, the result is the value under
    /// the key in that column, or `None` where there is none.
    #[verifier::external_body]
    pub(crate) fn get(&self, col: u32, key: &[u8]) -> (r: Result<Option<Vec<u8>>, std::io::Error>)
        ensures
            match r {
                Ok(Some(v)) => lookup(db_contents(*self), col, key@) == Some(v@),
                Ok(None) => lookup(db_contents(*self), col, key@) is None,
                Err(_) => true,
            },
    {
        self.inner.get(col, key)
    }

    /// `KeyValueDB::iter_with_prefix`, collected: all entries of the column
    /// whose key starts with the prefix, in ascending order of their keys,
    /// which is the order in which the backends hold them. The column has to
    /// be one that the backend has. This is what the trait documents; it is
    /// taken that every read of the scan succeeds: the backend on disk ends
    /// a scan without a word where a read of it fails, and nothing shows
    /// that to the caller.
    #[verifier::external_body]
    pub(crate) fn iter_with_prefix(&self, col: u32, prefix: &[u8]) -> (items: Vec<(Vec<u8>, Vec<u8>)>)
        requires
            col < db_columns(*self),
        ensures
            is_scan(db_contents(*self), col, prefix@, pairs_view(items@)),
    {
        self.inner.iter_with_prefix(col, prefix).map(|(k, v)| (k.into_vec(), v.into_vec())).collect()
    }

    /// `KeyValueDB::write`: a batch is written as a whole or not at all.
    /// Where it succeeds, the backend holds what the operations of the batch
    /// make of what it held, applied in their order. The in-memory backend
    /// never fails; the backend on disk hands the batch to its database in
    /// one write. Three things are asked of the batch, all for the backend
    /// on disk. Every operation names a column that the backend has: it
    /// does not return for one that it does not have. No prefix deletion
    /// follows an insert: for a prefix without a successor it deletes what
    /// it finds in the database before the batch is written, and so misses
    /// what the batch itself inserts. No prefix deletion names more than
    /// sixteen bytes that are all `0xff`: it makes of such a prefix a range
    /// that ends before it begins, which its database refuses only when the
    /// operations before it are applied, so that the write fails and they
    /// stay.
    #[verifier::external_body]
    pub(crate) fn write(&mut self, t: DBTransaction) -> (r: Result<(), std::io::Error>)
        requires
            ops_within(tx_ops(t), db_columns(*old(self))),
            deletes_before_inserts(tx_ops(t)),
            prefixes_deletable(tx_ops(t)),
        ensures
            db_columns(*final(self)) == db_columns(*old(self)),
            r is Ok ==> db_contents(*final(self)) == apply_ops(db_contents(*old(self)), tx_ops(t)),
            r is Err ==> db_contents(*final(self)) == db_contents(*old(self)),
    {
        self.inner.write(t)
    }

    /// `KeyValueDB::transaction`: a batch without operations.
    #[verifier::external_body]
    pub(crate) fn transaction(&self) -> (t: DBTransaction)
        ensures
            tx_ops(t) == Seq::<WriteOp>::empty(),
    {
        self.inner.transaction()
    }
}

/// `DBTransaction::with_capacity`: a batch without operations.
#[verifier::external_body]
pub(crate) fn tx_with_capacity(cap: usize) -> (t: DBTransaction)
    requires
        cap <= 256,
    ensures
        tx_ops(t) == Seq::<WriteOp>::empty(),
{
    DBTransaction::with_capacity(cap)
}

/// `DBTransaction::default`: a batch without operations.
#[verifier::external_body]
pub(crate) fn tx_default() -> (t: DBTransaction)
    ensures
        tx_ops(t) == Seq::<WriteOp>::empty(),
{
    DBTransaction::default()
}

/// `DBTransaction::put`: stages an insert behind the operations that are
/// there.
#[verifier::external_body]
pub(crate) fn tx_put(t: &mut DBTransaction, col: u32, key: &[u8], value: &[u8])
    ensures
        tx_ops(*final(t)) == tx_ops(*old(t)).push(
            WriteOp::Insert { col: col, key: key@, value: value@ },
        ),
{
    t.put(col, key, value)
}

/// `DBTransaction::delete`: stages the removal of one key behind the
/// operations that are there.
#[verifier::external_body]
pub(crate) fn tx_delete(t: &mut DBTransaction, col: u32, key: &[u8])
    ensures
        tx_ops(*final(t)) == tx_ops(*old(t)).push(WriteOp::Delete { col: col, key: key@ }),
{
    t.delete(col, key)
}

/// `DBTransaction::delete_prefix`: stages the removal of all keys under a
/// prefix behind the operations that are there.
#[verifier::external_body]
pub(crate) fn tx_delete_prefix(t: &mut DBTransaction, col: u32, prefix: &[u8])
    ensures
        tx_ops(*final(t)) == tx_ops(*old(t)).push(
            WriteOp::DeletePrefix { col: col, prefix: prefix@ },
        ),
{
    t.delete_prefix(col, prefix)
}

/// `Vec::len` on the operations of a batch.
#[verifier::external_body]
pub(crate) fn tx_len(t: &DBTransaction) -> (n: usize)
    ensures
        n == tx_ops(*t).len(),
{
    t.ops.len()
}

/// `DBOp::col` of the operation at `i`.
#[verifier::external_body]
pub(crate) fn tx_op_col(t: &DBTransaction, i: usize) -> (col: u32)
    requires
        i < tx_ops(*t).len(),
    ensures
        col == tx_ops(*t)[i as int].col(),
{
    t.ops[i].col()
}

/// `DBOp::key` of the operation at `i`, copied.
#[verifier::external_body]
pub(crate) fn tx_op_key(t: &DBTransaction, i: usize) -> (key: Vec<u8>)
    requires
        i < tx_ops(*t).len(),
    ensures
        key@ == tx_ops(*t)[i as int].key(),
{
    t.ops[i].key().to_vec()
}

/// `Vec::remove` on the operations of a batch.
#[verifier::external_body]
pub(crate) fn tx_remove(t: &mut DBTransaction, i: usize)
    requires
        i < tx_ops(*old(t)).len(),
    ensures
        tx_ops(*final(t)) == tx_ops(*old(t)).remove(i as int),
{
    t.ops.remove(i);
}

/// `Vec::clear` on the operations of a batch.
#[verifier::external_body]
pub(crate) fn tx_clear(t: &mut DBTransaction)
    ensures
        tx_ops(*final(t)) == Seq::<WriteOp>::empty(),
{
    t.ops.clear()
}

/// The text of a backend's error.
#[verifier::external_body]
pub(crate) fn io_error_text(e: &std::io::Error) -> (text: String) {
    format!("{}", e)
}

/// A batch extended by one operation is applied by applying the batch, then
/// the operation.
pub proof fn lemma_apply_push(c: Contents, ops: Seq<WriteOp>, op: WriteOp)
    ensures
        apply_ops(c, ops.push(op)) == apply_op(apply_ops(c, ops), op),
{
    assert(ops.push(op).drop_last() == ops);
}

/// A batch of one operation is applied by applying the operation.
pub proof fn lemma_apply_one(c: Contents, op: WriteOp)
    ensures
        apply_ops(c, seq![op]) == apply_op(c, op),
{
    assert(seq![op] == Seq::<WriteOp>::empty().push(op));
    lemma_apply_push(c, Seq::<WriteOp>::empty(), op);
}

/// A batch made of two is applied by applying the one, then the other.
pub proof fn lemma_apply_concat(c: Contents, first: Seq<WriteOp>, second: Seq<WriteOp>)
    ensures
        apply_ops(c, first + second) == apply_ops(apply_ops(c, first), second),
    decreases second.len(),
{
    if second.len() == 0 {
        assert(first + second == first);
    } else {
        lemma_apply_concat(c, first, second.drop_last());
        assert((first + second).drop_last() == first + second.drop_last());
        assert((first + second).last() == second.last());
    }
}

} // verus!
