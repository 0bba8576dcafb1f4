//! The staged writes of one block.
//!
//! A transaction is bound to one block hash. Its writes are held in a write
//! batch of the backend and reach the store only when the engine commits the
//! transaction: staging takes no handle on the store.

use crate::codec::{
    child_key, encode_stored, encode_value, lemma_child_key_round_trip, opt_slice_view, real_child_key,
    real_key, state_key, BlockHash, HASH_LEN, SEPARATOR,
};
use crate::columns;
use crate::db::{
    tx_clear, tx_default, tx_len, tx_op_col, tx_op_key, tx_ops, tx_put, tx_remove, WriteOp,
};
use kvdb::DBTransaction;
use vstd::prelude::*;

verus! {

/// The operation that stages `value` for the top-level `key` of block `hash`.
pub open spec fn set_op(hash: Seq<u8>, key: Seq<u8>, value: Option<Seq<u8>>) -> WriteOp {
    WriteOp::Insert {
        col: columns::STATE_KV,
        key: state_key(hash, key),
        value: encode_value(value),
    }
}

/// The operation that stages `value` for `key` of `child` in block `hash`.
pub open spec fn set_child_op(
    hash: Seq<u8>,
    child: Seq<u8>,
    key: Seq<u8>,
    value: Option<Seq<u8>>,
) -> WriteOp {
    WriteOp::Insert {
        col: columns::STATE_CHILD_KV,
        key: child_key(hash, child, key),
        value: encode_value(value),
    }
}

/// Whether `op` is a write that a transaction of block `hash` may hold: an
/// insert into one of the two state columns, under a key of that block.
pub open spec fn staged_under(hash: Seq<u8>, op: WriteOp) -> bool {
    &&& op is Insert
    &&& op.col() == columns::STATE_KV || op.col() == columns::STATE_CHILD_KV
    &&& hash.push(SEPARATOR).is_prefix_of(op.key())
}

/// Whether every operation of `ops` is a write that a transaction of block
/// `hash` may hold.
pub open spec fn all_staged_under(hash: Seq<u8>, ops: Seq<WriteOp>) -> bool {
    forall|i: int| 0 <= i < ops.len() ==> staged_under(hash, #[trigger] ops[i])
}

/// Whether `op` works on `key` in column `col`.
pub open spec fn op_matches(op: WriteOp, col: u32, key: Seq<u8>) -> bool {
    op.col() == col && op.key() == key
}

/// Whether `after` is `before` without its first operation on `key` in
/// column `col`, or `before` itself where it holds no such operation.
pub open spec fn first_match_removed(
    before: Seq<WriteOp>,
    after: Seq<WriteOp>,
    col: u32,
    key: Seq<u8>,
) -> bool {
    ||| {
        &&& forall|j: int| 0 <= j < before.len() ==> !op_matches(#[trigger] before[j], col, key)
        &&& after == before
    }
    ||| exists|i: int|
        {
            &&& 0 <= i < before.len()
            &&& op_matches(#[trigger] before[i], col, key)
            &&& forall|j: int| 0 <= j < i ==> !op_matches(#[trigger] before[j], col, key)
            &&& after == before.remove(i)
        }
}

/// Compares two byte strings.
pub fn bytes_eq(a: &[u8], b: &[u8]) -> (same: bool)
    ensures
        same == (a@ == b@),
{
    if a.len() != b.len() {
        return false;
    }
    let mut i: usize = 0;
    while i < a.len()
        invariant
            i <= a@.len(),
            a@.len() == b@.len(),
            a@.subrange(0, i as int) == b@.subrange(0, i as int),
        decreases a@.len() - i,
    {
        if a[i] != b[i] {
            return false;
        }
        i += 1;
        assert(a@.subrange(0, i as int) == a@.subrange(0, i - 1).push(a@[i - 1]));
        assert(b@.subrange(0, i as int) == b@.subrange(0, i - 1).push(b@[i - 1]));
    }
    assert(a@.subrange(0, a@.len() as int) == a@);
    assert(b@.subrange(0, b@.len() as int) == b@);
    true
}

/// The staged writes of one block, built step by step and committed as a
/// whole.
pub struct StateKvTransaction {
    hash: BlockHash,
    inner: DBTransaction,
}

impl StateKvTransaction {
    /// The hash of the block that the transaction is bound to.
    pub closed spec fn hash(&self) -> Seq<u8> {
        self.hash@
    }

    /// The staged operations, in the order in which they were staged.
    pub closed spec fn ops(&self) -> Seq<WriteOp> {
        tx_ops(self.inner)
    }

    /// Every staged operation is a write under the transaction's own block.
    pub open spec fn wf(&self) -> bool {
        all_staged_under(self.hash(), self.ops())
    }

    /// The hash of a transaction has the width of a hash.
    pub proof fn lemma_hash_width(&self)
        ensures
            self.hash().len() == HASH_LEN,
    {
    }

    /// A transaction for block `hash` over the batch `inner`, which holds
    /// nothing yet.
    pub(crate) fn bind(hash: BlockHash, inner: DBTransaction) -> (t: StateKvTransaction)
        requires
            tx_ops(inner) == Seq::<WriteOp>::empty(),
        ensures
            t.hash() == hash@,
            t.ops() == Seq::<WriteOp>::empty(),
            t.wf(),
    {
        StateKvTransaction { hash, inner }
    }

    /// Hands out the batch with the staged operations.
    pub(crate) fn into_inner(self) -> (inner: DBTransaction)
        ensures
            tx_ops(inner) == self.ops(),
    {
        self.inner
    }

    /// A transaction bound to `hash` with nothing staged.
    pub fn new(hash: BlockHash) -> (t: StateKvTransaction)
        ensures
            t.hash() == hash@,
            t.ops() == Seq::<WriteOp>::empty(),
            t.wf(),
    {
        StateKvTransaction { hash, inner: tx_default() }
    }

    /// The hash of the block that the transaction is bound to.
    pub fn block_hash(&self) -> (hash: BlockHash)
        ensures
            hash@ == self.hash(),
    {
        self.hash
    }

    /// The number of staged operations.
    pub fn len(&self) -> (n: usize)
        ensures
            n == self.ops().len(),
    {
        tx_len(&self.inner)
    }

    fn set_kv_impl(&mut self, col: u32, real_key: &[u8], value: Option<&[u8]>)
        requires
            col == columns::STATE_KV || col == columns::STATE_CHILD_KV,
            old(self).hash().push(SEPARATOR).is_prefix_of(real_key@),
        ensures
            final(self).hash() == old(self).hash(),
            final(self).ops() == old(self).ops().push(
                WriteOp::Insert {
                    col: col,
                    key: real_key@,
                    value: encode_value(opt_slice_view(value)),
                },
            ),
            old(self).wf() ==> final(self).wf(),
    {
        let stored: Vec<u8> = encode_stored(value);
        tx_put(&mut self.inner, col, real_key, stored.as_slice());
    }

    fn remove_impl(&mut self, col: u32, real_key: &[u8])
        ensures
            final(self).hash() == old(self).hash(),
            first_match_removed(old(self).ops(), final(self).ops(), col, real_key@),
            old(self).wf() ==> final(self).wf(),
    {
        let n: usize = tx_len(&self.inner);
        let mut i: usize = 0;
        while i < n
            invariant
                i <= n,
                n == tx_ops(self.inner).len(),
                self.inner == old(self).inner,
                self.hash == old(self).hash,
                forall|j: int| 0 <= j < i ==> !op_matches(#[trigger] tx_ops(self.inner)[j], col, real_key@),
            decreases n - i,
        {
            let op_col: u32 = tx_op_col(&self.inner, i);
            if op_col == col {
                let op_key: Vec<u8> = tx_op_key(&self.inner, i);
                if bytes_eq(op_key.as_slice(), real_key) {
                    tx_remove(&mut self.inner, i);
                    assert(op_matches(old(self).ops()[i as int], col, real_key@));
                    assert(old(self).wf() ==> self.wf()) by {
                        if old(self).wf() {
                            assert forall|k: int| 0 <= k < self.ops().len() implies staged_under(
                                self.hash(),
                                #[trigger] self.ops()[k],
                            ) by {
                                if k < i {
                                    assert(self.ops()[k] == old(self).ops()[k]);
                                } else {
                                    assert(self.ops()[k] == old(self).ops()[k + 1]);
                                }
                            }
                        }
                    }
                    return ;
                }
            }
            i += 1;
        }
    }

    /// Stages a top-level write. `None` stages an explicit deletion, which is
    /// stored as such and is no absence of the key.
    pub fn set_kv(&mut self, key: &[u8], value: Option<&[u8]>)
        ensures
            final(self).hash() == old(self).hash(),
            final(self).ops() == old(self).ops().push(
                set_op(old(self).hash(), key@, opt_slice_view(value)),
            ),
            old(self).wf() ==> final(self).wf(),
    {
        let real_key: Vec<u8> = real_key(&self.hash, key);
        proof {
            lemma_state_key_under(self.hash@, key@);
        }
        self.set_kv_impl(columns::STATE_KV, real_key.as_slice(), value);
    }

    /// Stages a write under a child id. `None` stages an explicit deletion.
    pub fn set_child_kv(&mut self, child: &[u8], key: &[u8], value: Option<&[u8]>)
        ensures
            final(self).hash() == old(self).hash(),
            final(self).ops() == old(self).ops().push(
                set_child_op(old(self).hash(), child@, key@, opt_slice_view(value)),
            ),
            old(self).wf() ==> final(self).wf(),
    {
        let real_key: Vec<u8> = real_child_key(&self.hash, child, key);
        proof {
            lemma_child_key_round_trip(self.hash@, child@, key@);
        }
        self.set_kv_impl(columns::STATE_CHILD_KV, real_key.as_slice(), value);
    }

    /// Takes back the first staged write to the top-level `key`, if there is
    /// one.
    pub fn remove(&mut self, key: &[u8])
        ensures
            final(self).hash() == old(self).hash(),
            first_match_removed(
                old(self).ops(),
                final(self).ops(),
                columns::STATE_KV,
                state_key(old(self).hash(), key@),
            ),
            old(self).wf() ==> final(self).wf(),
    {
        let real_key: Vec<u8> = real_key(&self.hash, key);
        self.remove_impl(columns::STATE_KV, real_key.as_slice());
    }

    /// Takes back the first staged write to `key` of `child`, if there is
    /// one.
    pub fn remove_child(&mut self, child: &[u8], key: &[u8])
        ensures
            final(self).hash() == old(self).hash(),
            first_match_removed(
                old(self).ops(),
                final(self).ops(),
                columns::STATE_CHILD_KV,
                child_key(old(self).hash(), child@, key@),
            ),
            old(self).wf() ==> final(self).wf(),
    {
        let real_key: Vec<u8> = real_child_key(&self.hash, child, key);
        self.remove_impl(columns::STATE_CHILD_KV, real_key.as_slice());
    }

    /// Discards all staged writes.
    pub fn clear(&mut self)
        ensures
            final(self).hash() == old(self).hash(),
            final(self).ops() == Seq::<WriteOp>::empty(),
            old(self).wf() ==> final(self).wf(),
    {
        tx_clear(&mut self.inner);
    }
}

impl Default for StateKvTransaction {
    /// A transaction bound to the all-zero hash with nothing staged.
    fn default() -> (t: StateKvTransaction)
        ensures
            t.hash() == Seq::new(HASH_LEN as nat, |i: int| 0u8),
            t.ops() == Seq::<WriteOp>::empty(),
            t.wf(),
    {
        let hash: BlockHash = [0u8; 32];
        let t = StateKvTransaction { hash, inner: tx_default() };
        assert(t.hash() == Seq::new(HASH_LEN as nat, |i: int| 0u8));
        t
    }
}

/// A state key lies under its block's hash and the separator.
pub proof fn lemma_state_key_under(hash: Seq<u8>, key: Seq<u8>)
    ensures
        hash.push(SEPARATOR).is_prefix_of(state_key(hash, key)),
{
    let k = state_key(hash, key);
    assert(k.subrange(0, hash.len() as int + 1) == hash.push(SEPARATOR));
}

impl crate::statekv::StateKvTransaction for StateKvTransaction {
    open spec fn tx_hash(&self) -> Seq<u8> {
        self.hash()
    }

    open spec fn tx_staged(&self) -> Seq<WriteOp> {
        self.ops()
    }

    fn set_kv(&mut self, key: &[u8], value: Option<&[u8]>) {
        StateKvTransaction::set_kv(self, key, value)
    }

    fn set_child_kv(&mut self, child: &[u8], key: &[u8], value: Option<&[u8]>) {
        StateKvTransaction::set_child_kv(self, child, key, value)
    }

    fn remove(&mut self, key: &[u8]) {
        StateKvTransaction::remove(self, key)
    }

    fn remove_child(&mut self, child: &[u8], key: &[u8]) {
        StateKvTransaction::remove_child(self, child, key)
    }

    fn clear(&mut self) {
        StateKvTransaction::clear(self)
    }
}

} // verus!
