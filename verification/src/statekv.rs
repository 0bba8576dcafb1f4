//! The contract between the store and the block import: what a store of
//! state changes, and a transaction of it, owe to the code that uses them.

use crate::codec::{child_key, child_scan, indexed_key, opt_slice_view, state_key, BlockHash};
use crate::columns;
use crate::db::{lookup, Contents, WriteOp};
use crate::engine::{hash_result, index_ops, number_result, revert_result, write_result};
use crate::error::StateKvError;
use crate::model::{block_listing, child_listing, hash_of, read_result, text_result};
use crate::transaction::{all_staged_under, first_match_removed, set_child_op, set_op};
use vstd::bytes::spec_u64_to_le_bytes;
use vstd::prelude::*;
use vstd::utf8::encode_utf8;

verus! {

/// The staged writes of one block.
pub trait StateKvTransaction {
    /// The hash of the block that the transaction is bound to.
    spec fn tx_hash(&self) -> Seq<u8>;

    /// The staged operations, in the order in which they were staged.
    spec fn tx_staged(&self) -> Seq<WriteOp>;

    /// Stages a top-level write; `None` stages an explicit deletion.
    fn set_kv(&mut self, key: &[u8], value: Option<&[u8]>)
        ensures
            final(self).tx_hash() == old(self).tx_hash(),
            final(self).tx_staged() == old(self).tx_staged().push(
                set_op(old(self).tx_hash(), key@, opt_slice_view(value)),
            ),
    ;

    /// Stages a write under a child id; `None` stages an explicit deletion.
    fn set_child_kv(&mut self, child: &[u8], key: &[u8], value: Option<&[u8]>)
        ensures
            final(self).tx_hash() == old(self).tx_hash(),
            final(self).tx_staged() == old(self).tx_staged().push(
                set_child_op(old(self).tx_hash(), child@, key@, opt_slice_view(value)),
            ),
    ;

    /// remove old record from this Transaction
    fn remove(&mut self, key: &[u8])
        ensures
            final(self).tx_hash() == old(self).tx_hash(),
            first_match_removed(
                old(self).tx_staged(),
                final(self).tx_staged(),
                columns::STATE_KV,
                state_key(old(self).tx_hash(), key@),
            ),
    ;

    /// remove old child record from this Transaction
    fn remove_child(&mut self, child: &[u8], key: &[u8])
        ensures
            final(self).tx_hash() == old(self).tx_hash(),
            first_match_removed(
                old(self).tx_staged(),
                final(self).tx_staged(),
                columns::STATE_CHILD_KV,
                child_key(old(self).tx_hash(), child@, key@),
            ),
    ;

    /// Discards all staged writes.
    fn clear(&mut self)
        ensures
            final(self).tx_hash() == old(self).tx_hash(),
            final(self).tx_staged() == Seq::<WriteOp>::empty(),
    ;
}

/// A store of the state changes of blocks.
pub trait StateKv {
    /// The transaction type used by the StateKv.
    type Transaction: StateKvTransaction;

    /// What the store holds: the value under each column and physical key.
    spec fn kv_contents(&self) -> Contents;

    /// Whether the store is sound.
    spec fn kv_wf(&self) -> bool;

    /// Writes one top-level entry of block `hash` at once; `None` writes an
    /// explicit deletion.
    fn set_kv(&mut self, hash: BlockHash, key: &[u8], value: Option<&[u8]>) -> (r: Result<
        (),
        StateKvError,
    >)
        requires
            old(self).kv_wf(),
        ensures
            final(self).kv_wf(),
            write_result(
                old(self).kv_contents(),
                final(self).kv_contents(),
                seq![set_op(hash@, key@, opt_slice_view(value))],
                r,
            ),
    ;

    /// Writes one entry of `child` in block `hash` at once; `None` writes an
    /// explicit deletion.
    fn set_child_kv(
        &mut self,
        hash: BlockHash,
        child: &[u8],
        key: &[u8],
        value: Option<&[u8]>,
    ) -> (r: Result<(), StateKvError>)
        requires
            old(self).kv_wf(),
        ensures
            final(self).kv_wf(),
            write_result(
                old(self).kv_contents(),
                final(self).kv_contents(),
                seq![set_child_op(hash@, child@, key@, opt_slice_view(value))],
                r,
            ),
    ;

    /// A transaction bound to `hash`, with nothing staged.
    fn transaction(&self, hash: BlockHash) -> (t: Self::Transaction)
        ensures
            t.tx_hash() == hash@,
            t.tx_staged() == Seq::<WriteOp>::empty(),
    ;

    /// Writes all staged operations of a transaction as one batch: all of
    /// them take effect, or none does.
    fn commit(&mut self, t: Self::Transaction) -> (r: Result<(), StateKvError>)
        requires
            old(self).kv_wf(),
            all_staged_under(t.tx_hash(), t.tx_staged()),
        ensures
            final(self).kv_wf(),
            write_result(old(self).kv_contents(), final(self).kv_contents(), t.tx_staged(), r),
    ;

    /// The value of the top-level `key` in block `hash`: `None` where the
    /// block did not touch the key or deleted it.
    fn get(&self, hash: BlockHash, key: &[u8]) -> (r: Result<Option<Vec<u8>>, StateKvError>)
        requires
            self.kv_wf(),
        ensures
            read_result(lookup(self.kv_contents(), columns::STATE_KV, state_key(hash@, key@)), r),
    ;

    /// The value of `key` of `child` in block `hash`: `None` where the block
    /// did not touch the key or deleted it.
    fn get_child(&self, hash: BlockHash, child: &[u8], key: &[u8]) -> (r: Result<
        Option<Vec<u8>>,
        StateKvError,
    >)
        requires
            self.kv_wf(),
        ensures
            read_result(
                lookup(self.kv_contents(), columns::STATE_CHILD_KV, child_key(hash@, child@, key@)),
                r,
            ),
    ;

    /// All top-level entries of block `hash`, in ascending order of their
    /// keys, a deleted key with `None` as its value; `None` where there are
    /// none.
    fn get_kvs_by_hash(&self, hash: BlockHash) -> (r: Result<
        Option<Vec<(Vec<u8>, Option<Vec<u8>>)>>,
        StateKvError,
    >)
        requires
            self.kv_wf(),
        ensures
            block_listing(self.kv_contents(), hash@, r),
    ;

    /// All entries of `child` in block `hash`, in ascending order of their
    /// keys, a deleted key with `None` as its value; `None` where there are
    /// none.
    fn get_child_kvs_by_hash(&self, hash: BlockHash, child: &[u8]) -> (r: Result<
        Option<Vec<(Vec<u8>, Option<Vec<u8>>)>>,
        StateKvError,
    >)
        requires
            self.kv_wf(),
        ensures
            child_listing(self.kv_contents(), hash@, child@, r),
    ;

    /// Removes all top-level entries of block `hash`.
    fn delete_kvs_by_hash(&mut self, hash: BlockHash) -> (r: Result<(), StateKvError>)
        requires
            old(self).kv_wf(),
        ensures
            final(self).kv_wf(),
            write_result(
                old(self).kv_contents(),
                final(self).kv_contents(),
                seq![WriteOp::DeletePrefix { col: columns::STATE_KV, prefix: hash@ }],
                r,
            ),
    ;

    /// Removes all entries of `child` in block `hash`.
    fn delete_child_kvs_by_hash(&mut self, hash: BlockHash, child: &[u8]) -> (r: Result<
        (),
        StateKvError,
    >)
        requires
            old(self).kv_wf(),
        ensures
            final(self).kv_wf(),
            write_result(
                old(self).kv_contents(),
                final(self).kv_contents(),
                seq![
                    WriteOp::DeletePrefix {
                        col: columns::STATE_CHILD_KV,
                        prefix: child_scan(hash@, child@),
                    },
                ],
                r,
            ),
    ;

    /// Stores the storage operations of extrinsic `index` of block `number`.
    fn set_extrinsic_changes(&mut self, number: u64, index: u32, json: String) -> (r: Result<
        (),
        StateKvError,
    >)
        requires
            old(self).kv_wf(),
        ensures
            final(self).kv_wf(),
            write_result(
                old(self).kv_contents(),
                final(self).kv_contents(),
                seq![
                    WriteOp::Insert {
                        col: columns::EXTRINSIC_CHANGES,
                        key: indexed_key(number, index),
                        value: encode_utf8(json@),
                    },
                ],
                r,
            ),
    ;

    /// The stored storage operations of extrinsic `index` of block `number`.
    fn get_extrinsic_changes(&self, number: u64, index: u32) -> (r: Result<
        Option<String>,
        StateKvError,
    >)
        requires
            self.kv_wf(),
        ensures
            text_result(
                lookup(self.kv_contents(), columns::EXTRINSIC_CHANGES, indexed_key(number, index)),
                r,
            ),
    ;

    /// Removes the stored storage operations of extrinsic `index` of block
    /// `number`.
    fn delete_extrinsic_changes(&mut self, number: u64, index: u32) -> (r: Result<
        (),
        StateKvError,
    >)
        requires
            old(self).kv_wf(),
        ensures
            final(self).kv_wf(),
            write_result(
                old(self).kv_contents(),
                final(self).kv_contents(),
                seq![
                    WriteOp::Delete {
                        col: columns::EXTRINSIC_CHANGES,
                        key: indexed_key(number, index),
                    },
                ],
                r,
            ),
    ;

    /// Records `hash` and `number` for each other.
    fn set_hash_and_number(&mut self, hash: BlockHash, number: u64) -> (r: Result<
        (),
        StateKvError,
    >)
        requires
            old(self).kv_wf(),
        ensures
            final(self).kv_wf(),
            write_result(
                old(self).kv_contents(),
                final(self).kv_contents(),
                index_ops(old(self).kv_contents(), hash@, number),
                r,
            ),
    ;

    /// The recorded number of block `hash`.
    fn get_number(&self, hash: BlockHash) -> (r: Result<Option<u64>, StateKvError>)
        requires
            self.kv_wf(),
        ensures
            number_result(lookup(self.kv_contents(), columns::HASH_TO_NUMBER, hash@), r),
    ;

    /// The recorded hash of block `number`.
    fn get_hash(&self, number: u64) -> (r: Result<Option<BlockHash>, StateKvError>)
        requires
            self.kv_wf(),
        ensures
            hash_result(hash_of(self.kv_contents(), number), r),
    ;

    /// Stores the call trace of extrinsic `index` of block `number`.
    fn set_contract_tracing(&mut self, number: u64, index: u32, tracing: String) -> (r: Result<
        (),
        StateKvError,
    >)
        requires
            old(self).kv_wf(),
        ensures
            final(self).kv_wf(),
            write_result(
                old(self).kv_contents(),
                final(self).kv_contents(),
                seq![
                    WriteOp::Insert {
                        col: columns::TRACING,
                        key: indexed_key(number, index),
                        value: encode_utf8(tracing@),
                    },
                ],
                r,
            ),
    ;

    /// The stored call trace of extrinsic `index` of block `number`.
    fn get_contract_tracing(&self, number: u64, index: u32) -> (r: Result<
        Option<String>,
        StateKvError,
    >)
        requires
            self.kv_wf(),
        ensures
            text_result(lookup(self.kv_contents(), columns::TRACING, indexed_key(number, index)), r),
    ;

    /// Removes the stored call trace of extrinsic `index` of block `number`.
    fn remove_contract_tracing(&mut self, number: u64, index: u32) -> (r: Result<
        (),
        StateKvError,
    >)
        requires
            old(self).kv_wf(),
        ensures
            final(self).kv_wf(),
            write_result(
                old(self).kv_contents(),
                final(self).kv_contents(),
                seq![WriteOp::Delete { col: columns::TRACING, key: indexed_key(number, index) }],
                r,
            ),
    ;

    /// Removes the stored call traces of all extrinsics of block `number`.
    fn remove_contract_tracings_by_number(&mut self, number: u64) -> (r: Result<
        (),
        StateKvError,
    >)
        requires
            old(self).kv_wf(),
        ensures
            final(self).kv_wf(),
            write_result(
                old(self).kv_contents(),
                final(self).kv_contents(),
                seq![
                    WriteOp::DeletePrefix {
                        col: columns::TRACING,
                        prefix: spec_u64_to_le_bytes(number),
                    },
                ],
                r,
            ),
    ;

    /// Removes every record of block `number` as a whole; the recorded hash and
    /// number stay.
    fn revert_all(&mut self, number: u64) -> (r: Result<(), StateKvError>)
        requires
            old(self).kv_wf(),
        ensures
            final(self).kv_wf(),
            revert_result(old(self).kv_contents(), final(self).kv_contents(), number, r),
    ;
}

/// A client that gives access to its store of state changes.
pub trait ClientStateKv<S: StateKv> {
    /// The store of the client.
    spec fn client_store(&self) -> S;

    /// The store of the client, for reading.
    fn state_kv(&self) -> (store: &S)
        ensures
            *store == self.client_store(),
    ;
}

} // verus!
