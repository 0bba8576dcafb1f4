//! What the block import does with the store: once a block is imported with
//! its storage changes, its hash and number are recorded, and the changes
//! are committed as one transaction of that block.

use crate::codec::{lemma_child_key_round_trip, opt_view, BlockHash};
use crate::db::{apply_ops, Contents, WriteOp};
use crate::engine::index_ops;
use crate::error::StateKvError;
use crate::model::entries_view;
use crate::statekv::{ClientStateKv, StateKv, StateKvTransaction};
use crate::transaction::{lemma_state_key_under, set_child_op, set_op, staged_under};
use vstd::prelude::*;

verus! {

/// The changes of one storage: each changed key with its new value, or with
/// `None` where it was deleted.
pub type StorageCollection = Vec<(Vec<u8>, Option<Vec<u8>>)>;

/// The changes of the child storages: each child id with its changes.
pub type ChildStorageCollection = Vec<(Vec<u8>, StorageCollection)>;

/// The child changes as mathematical values.
pub open spec fn children_view(children: Seq<(Vec<u8>, StorageCollection)>) -> Seq<
    (Seq<u8>, Seq<(Seq<u8>, Option<Seq<u8>>)>),
> {
    Seq::new(children.len(), |i: int| (children[i].0@, entries_view(children[i].1@)))
}

/// The staged writes for the top-level changes of a block, in their order.
pub open spec fn main_ops(hash: Seq<u8>, main: Seq<(Seq<u8>, Option<Seq<u8>>)>) -> Seq<WriteOp> {
    Seq::new(main.len(), |i: int| set_op(hash, main[i].0, main[i].1))
}

/// The staged writes for the changes of one child, in their order.
pub open spec fn child_ops(
    hash: Seq<u8>,
    child: Seq<u8>,
    items: Seq<(Seq<u8>, Option<Seq<u8>>)>,
) -> Seq<WriteOp> {
    Seq::new(items.len(), |i: int| set_child_op(hash, child, items[i].0, items[i].1))
}

/// The staged writes for the changes of all children, child by child.
pub open spec fn children_ops(
    hash: Seq<u8>,
    children: Seq<(Seq<u8>, Seq<(Seq<u8>, Option<Seq<u8>>)>)>,
) -> Seq<WriteOp>
    decreases children.len(),
{
    if children.len() == 0 {
        Seq::empty()
    } else {
        children_ops(hash, children.drop_last()) + child_ops(
            hash,
            children.last().0,
            children.last().1,
        )
    }
}

/// The staged writes for all changes of a block: the top-level ones, then
/// those of the children.
pub open spec fn import_ops(
    hash: Seq<u8>,
    main: Seq<(Seq<u8>, Option<Seq<u8>>)>,
    children: Seq<(Seq<u8>, Seq<(Seq<u8>, Option<Seq<u8>>)>)>,
) -> Seq<WriteOp> {
    main_ops(hash, main) + children_ops(hash, children)
}

/// Whether `r` and `after` are an outcome of importing a block into a store
/// that held `before`: on success the hash and the number are recorded and
/// all changes are written; on failure nothing has changed, or the hash and
/// the number are recorded and no change is written.
pub open spec fn import_result(
    before: Contents,
    after: Contents,
    hash: Seq<u8>,
    number: u64,
    ops: Seq<WriteOp>,
    r: Result<(), StateKvError>,
) -> bool {
    match r {
        Ok(()) => after == apply_ops(apply_ops(before, index_ops(before, hash, number)), ops),
        Err(StateKvError::Database(_)) => after == before || after == apply_ops(
            before,
            index_ops(before, hash, number),
        ),
        Err(_) => false,
    }
}

/// A borrowed view of an optional value.
pub fn as_opt_slice(value: &Option<Vec<u8>>) -> (r: Option<&[u8]>)
    ensures
        crate::codec::opt_slice_view(r) == opt_view(*value),
{
    match value {
        Some(bytes) => Some(bytes.as_slice()),
        None => None,
    }
}

/// Staging one more write of a block keeps a transaction of that block
/// sound.
proof fn lemma_push_staged(hash: Seq<u8>, ops: Seq<WriteOp>, op: WriteOp)
    requires
        crate::transaction::all_staged_under(hash, ops),
        staged_under(hash, op),
    ensures
        crate::transaction::all_staged_under(hash, ops.push(op)),
{
    assert forall|i: int| 0 <= i < ops.push(op).len() implies staged_under(
        hash,
        #[trigger] ops.push(op)[i],
    ) by {
        if i < ops.len() {
            assert(ops.push(op)[i] == ops[i]);
        }
    }
}

/// Stages all changes of a block into a transaction of that block.
pub fn stage_changes<T: StateKvTransaction>(
    t: &mut T,
    main: &StorageCollection,
    children: &ChildStorageCollection,
)
    requires
        crate::transaction::all_staged_under(old(t).tx_hash(), old(t).tx_staged()),
    ensures
        crate::transaction::all_staged_under(final(t).tx_hash(), final(t).tx_staged()),
        final(t).tx_hash() == old(t).tx_hash(),
        final(t).tx_staged() == old(t).tx_staged() + import_ops(
            old(t).tx_hash(),
            entries_view(main@),
            children_view(children@),
        ),
{
    let ghost hash = t.tx_hash();
    let ghost start = t.tx_staged();
    let ghost main_v = entries_view(main@);
    let ghost children_v = children_view(children@);
    let mut i: usize = 0;
    while i < main.len()
        invariant
            i <= main@.len(),
            crate::transaction::all_staged_under(t.tx_hash(), t.tx_staged()),
            t.tx_hash() == hash,
            main_v == entries_view(main@),
            t.tx_staged() == start + main_ops(hash, main_v.subrange(0, i as int)),
        decreases main@.len() - i,
    {
        let ghost before = t.tx_staged();
        t.set_kv(main[i].0.as_slice(), as_opt_slice(&main[i].1));
        proof {
            let shorter = main_v.subrange(0, i as int);
            let longer = main_v.subrange(0, i + 1);
            assert(main_v[i as int] == (main@[i as int].0@, opt_view(main@[i as int].1)));
            lemma_state_key_under(hash, main_v[i as int].0);
            lemma_push_staged(hash, before, set_op(hash, main_v[i as int].0, main_v[i as int].1));
            assert(main_ops(hash, longer) =~= main_ops(hash, shorter).push(
                set_op(hash, main_v[i as int].0, main_v[i as int].1),
            ));
            assert(t.tx_staged() =~= start + main_ops(hash, longer));
        }
        i += 1;
    }
    assert(main_v.subrange(0, main@.len() as int) == main_v);
    let ghost after_main = t.tx_staged();
    let mut c: usize = 0;
    while c < children.len()
        invariant
            c <= children@.len(),
            crate::transaction::all_staged_under(t.tx_hash(), t.tx_staged()),
            t.tx_hash() == hash,
            children_v == children_view(children@),
            t.tx_staged() == after_main + children_ops(hash, children_v.subrange(0, c as int)),
        decreases children@.len() - c,
    {
        let ghost before_child = t.tx_staged();
        let ghost child_v = children_v[c as int];
        assert(child_v == (children@[c as int].0@, entries_view(children@[c as int].1@)));
        let mut k: usize = 0;
        while k < children[c].1.len()
            invariant
                c < children@.len(),
                k <= children@[c as int].1@.len(),
                crate::transaction::all_staged_under(t.tx_hash(), t.tx_staged()),
                t.tx_hash() == hash,
                child_v == (children@[c as int].0@, entries_view(children@[c as int].1@)),
                t.tx_staged() == before_child + child_ops(
                    hash,
                    child_v.0,
                    child_v.1.subrange(0, k as int),
                ),
            decreases children@[c as int].1@.len() - k,
        {
            let ghost before = t.tx_staged();
            t.set_child_kv(
                children[c].0.as_slice(),
                children[c].1[k].0.as_slice(),
                as_opt_slice(&children[c].1[k].1),
            );
            proof {
                let items = child_v.1;
                let shorter = items.subrange(0, k as int);
                let longer = items.subrange(0, k + 1);
                assert(items[k as int] == (
                    children@[c as int].1@[k as int].0@,
                    opt_view(children@[c as int].1@[k as int].1),
                ));
                lemma_child_key_round_trip(hash, child_v.0, items[k as int].0);
                lemma_push_staged(
                    hash,
                    before,
                    set_child_op(hash, child_v.0, items[k as int].0, items[k as int].1),
                );
                assert(child_ops(hash, child_v.0, longer) =~= child_ops(hash, child_v.0, shorter).push(
                    set_child_op(hash, child_v.0, items[k as int].0, items[k as int].1),
                ));
                assert(t.tx_staged() =~= before_child + child_ops(hash, child_v.0, longer));
            }
            k += 1;
        }
        proof {
            assert(child_v.1.subrange(0, child_v.1.len() as int) == child_v.1);
            let shorter = children_v.subrange(0, c as int);
            let longer = children_v.subrange(0, c + 1);
            assert(longer.drop_last() == shorter);
            assert(longer.last() == child_v);
            assert(t.tx_staged() =~= after_main + children_ops(hash, longer));
        }
        c += 1;
    }
    assert(children_v.subrange(0, children@.len() as int) == children_v);
    assert(t.tx_staged() =~= start + import_ops(hash, main_v, children_v));
}

/// The part of the node's client that keeps the store of state changes.
pub struct Client<S: StateKv> {
    state_kv: S,
}

impl<S: StateKv> ClientStateKv<S> for Client<S> {
    open spec fn client_store(&self) -> S {
        self.store()
    }

    fn state_kv(&self) -> (store: &S) {
        &self.state_kv
    }
}

impl<S: StateKv> Client<S> {
    /// The store of this client.
    pub closed spec fn store(&self) -> S {
        self.state_kv
    }

    /// What the store of this client holds.
    pub open spec fn contents(&self) -> Contents {
        self.store().kv_contents()
    }

    /// The store of this client is sound.
    pub open spec fn wf(&self) -> bool {
        self.store().kv_wf()
    }

    /// A client over a store.
    pub fn new(state_kv: S) -> (client: Self)
        ensures
            client.store() == state_kv,
    {
        Client { state_kv }
    }

    /// The store, for writing.
    pub fn state_kv_mut(&mut self) -> (store: &mut S)
        ensures
            *store == old(self).store(),
            final(self).store() == *final(store),
    {
        &mut self.state_kv
    }

    /// Takes the storage changes of an imported block into the store. The
    /// hash and the number are recorded first, then all changes are
    /// committed as a whole: a failure leaves at most a recorded hash and
    /// number without changes, never changes without them.
    pub fn notify_imported(
        &mut self,
        hash: BlockHash,
        number: u64,
        main: &StorageCollection,
        children: &ChildStorageCollection,
    ) -> (r: Result<(), StateKvError>)
        requires
            old(self).wf(),
        ensures
            final(self).wf(),
            import_result(
                old(self).contents(),
                final(self).contents(),
                hash@,
                number,
                import_ops(hash@, entries_view(main@), children_view(children@)),
                r,
            ),
    {
        match self.state_kv.set_hash_and_number(hash, number) {
            Ok(()) => {},
            Err(e) => {
                return Err(e);
            },
        }
        let mut t: S::Transaction = self.state_kv.transaction(hash);
        stage_changes(&mut t, main, children);
        assert(t.tx_staged() =~= import_ops(hash@, entries_view(main@), children_view(children@)));
        self.state_kv.commit(t)
    }
}

/// The header of a block that is imported, where additional changes are
/// made after the runtime executed.
pub enum PrePostHeader<H> {
    /// they are the same: no post-runtime digest items.
    Same(H),
    /// different headers (pre, post).
    Different(H, H),
}

impl<H> PrePostHeader<H> {
    /// The header as it should be after all changes are applied.
    pub open spec fn post_header(self) -> H {
        match self {
            PrePostHeader::Same(h) => h,
            PrePostHeader::Different(_, h) => h,
        }
    }

    /// get a reference to the "post-header" -- the header as it should be
    /// after all changes are applied.
    pub fn post(&self) -> (h: &H)
        ensures
            *h == self.post_header(),
    {
        match self {
            PrePostHeader::Same(h) => h,
            PrePostHeader::Different(_, h) => h,
        }
    }

    /// convert to the "post-header" -- the header as it should be after all
    /// changes are applied.
    pub fn into_post(self) -> (h: H)
        ensures
            h == self.post_header(),
    {
        match self {
            PrePostHeader::Same(h) => h,
            PrePostHeader::Different(_, h) => h,
        }
    }
}

} // verus!
