//! What the remote calls of the node decide: how far to move the chain, and
//! what to answer about the recorded state of a block.

use crate::codec::{indexed_key, BlockHash, HASH_LEN};
use crate::columns;
use crate::db::{lookup, Contents};
use crate::engine::{reverted, StateKv};
use crate::error::StateKvError;
use crate::laws::law_revert;
use crate::model::{block_listing, child_listing, hash_of, text_result};
use vstd::prelude::*;

verus! {

/// A block, named by its number or by its hash.
#[derive(Clone, Copy, Debug)]
pub enum NumberOrHash {
    Number(u64),
    Hash(BlockHash),
}

/// Why a remote call failed.
#[derive(Debug)]
pub enum EuropaRpcError {
    /// Forward to a height which is not more than best: the height, the
    /// best.
    InvalidForwardHeight(u64, u64),
    /// Backward to a height which is not less than best: the height, the
    /// best.
    InvalidBackwardHeight(u64, u64),
    /// Block number or hash not existed.
    InvalidBlockId(NumberOrHash),
    /// No state kvs data for this number or hash
    NoStateKvs(NumberOrHash),
    /// No child state kvs data for this number or hash, and the child.
    NoChildStateKvs(NumberOrHash, Vec<u8>),
    /// No extrinsic for this number or hash, and the index.
    NoExtrinsic(NumberOrHash, u32),
    /// The store failed.
    Client(StateKvError),
}

/// The number of blocks to produce to reach `height` from `best`. The
/// height has to be above the best block.
pub fn forward_to_height(best: u64, height: u64) -> (r: Result<u64, EuropaRpcError>)
    ensures
        match r {
            Ok(need_more) => height > best && need_more == height - best,
            Err(EuropaRpcError::InvalidForwardHeight(h, b)) => height <= best && h == height && b
                == best,
            Err(_) => false,
        },
{
    if height <= best {
        return Err(EuropaRpcError::InvalidForwardHeight(height, best));
    }
    // height > number
    Ok(height - best)
}

/// Whether a hash of the right width is recorded for every block above
/// `height` up to `best`.
pub open spec fn all_resolvable(c: Contents, height: u64, best: u64) -> bool {
    forall|n: u64|
        height < n <= best ==> (#[trigger] hash_of(c, n)) is Some && hash_of(c, n)->Some_0.len()
            == HASH_LEN
}

/// What the store holds once the blocks from `best` down to the one above
/// `height` are reverted, the highest first.
pub open spec fn reverted_down_to(c: Contents, best: u64, height: u64) -> Contents
    decreases best,
{
    if best <= height {
        c
    } else {
        match hash_of(c, best) {
            Some(hash) => reverted_down_to(reverted(c, hash, best), (best - 1) as u64, height),
            None => c,
        }
    }
}

/// Whether `r` and `after` are an outcome of moving a store that held
/// `before` back from `best` to `height`. A height that is not below the
/// best block, and a block in between without a recorded hash, are refused
/// before anything is changed. A failure of the backend leaves the blocks
/// down to some block reverted, each of them as a whole.
pub open spec fn backward_result(
    before: Contents,
    after: Contents,
    best: u64,
    height: u64,
    r: Result<(), EuropaRpcError>,
) -> bool {
    match r {
        Ok(()) => {
            &&& height < best
            &&& all_resolvable(before, height, best)
            &&& after == reverted_down_to(before, best, height)
        },
        Err(EuropaRpcError::InvalidBackwardHeight(h, b)) => {
            &&& height >= best
            &&& h == height
            &&& b == best
            &&& after == before
        },
        Err(EuropaRpcError::Client(StateKvError::NoHashForNumber(n))) => {
            &&& height < n <= best
            &&& hash_of(before, n) is None
            &&& after == before
        },
        Err(EuropaRpcError::Client(StateKvError::Corrupted)) => {
            &&& height < best
            &&& !all_resolvable(before, height, best)
            &&& after == before
        },
        Err(EuropaRpcError::Client(StateKvError::Database(_))) => {
            &&& height < best
            &&& exists|reached: u64|
                height <= reached <= best && after == #[trigger] reverted_down_to(
                    before,
                    best,
                    reached,
                )
        },
        Err(_) => false,
    }
}

/// Reverting down to a block and then the block below it is reverting down
/// to the block below.
pub proof fn lemma_reverted_one_more(c: Contents, best: u64, reached: u64)
    requires
        0 < reached <= best,
        all_resolvable(c, (reached - 1) as u64, best),
    ensures
        reverted_down_to(c, best, (reached - 1) as u64) == reverted(
            reverted_down_to(c, best, reached),
            hash_of(c, reached)->Some_0,
            reached,
        ),
        forall|n: u64| #[trigger] hash_of(reverted_down_to(c, best, reached), n) == hash_of(c, n),
    decreases best - reached,
{
    if reached == best {
        assert(hash_of(c, best) is Some);
        let h = hash_of(c, best)->Some_0;
        assert(reverted_down_to(reverted(c, h, best), (best - 1) as u64, (best - 1) as u64)
            == reverted(c, h, best));
        assert(reverted_down_to(c, best, best) == c);
    } else {
        assert(hash_of(c, best) is Some);
        let h = hash_of(c, best)->Some_0;
        let c1 = reverted(c, h, best);
        law_revert(c, h, best);
        assert forall|n: u64| ((reached - 1) as u64) < n <= ((best - 1) as u64) implies (#[trigger] hash_of(
            c1,
            n,
        )) is Some && hash_of(c1, n)->Some_0.len() == HASH_LEN by {
            assert(hash_of(c, n) is Some);
        }
        lemma_reverted_one_more(c1, (best - 1) as u64, reached);
        assert(reverted_down_to(c, best, reached) == reverted_down_to(
            c1,
            (best - 1) as u64,
            reached,
        ));
        assert(reverted_down_to(c, best, (reached - 1) as u64) == reverted_down_to(
            c1,
            (best - 1) as u64,
            (reached - 1) as u64,
        ));
        assert(hash_of(c1, reached) == hash_of(c, reached));
        assert forall|n: u64| #[trigger]
            hash_of(reverted_down_to(c, best, reached), n) == hash_of(c, n) by {
            assert(hash_of(reverted_down_to(c1, (best - 1) as u64, reached), n) == hash_of(c1, n));
            assert(hash_of(c1, n) == hash_of(c, n));
        }
    }
}

/// Moves the store back from `best` to `height`: reverts every block above
/// `height`, the highest first.
pub fn backward_to_height(state_kv: &mut StateKv, best: u64, height: u64) -> (r: Result<
    (),
    EuropaRpcError,
>)
    requires
        old(state_kv).wf(),
    ensures
        final(state_kv).wf(),
        backward_result(old(state_kv).contents(), final(state_kv).contents(), best, height, r),
{
    if height >= best {
        return Err(EuropaRpcError::InvalidBackwardHeight(height, best));
    }
    let ghost before = state_kv.contents();
    let mut probe: u64 = best;
    while probe != height
        invariant
            height <= probe <= best,
            height < best,
            before == old(state_kv).contents(),
            state_kv.wf(),
            state_kv.contents() == before,
            *state_kv == *old(state_kv),
            all_resolvable(before, probe, best),
        decreases probe - height,
    {
        match state_kv.get_hash(probe) {
            Ok(Some(_)) => {},
            Ok(None) => {
                return Err(EuropaRpcError::Client(StateKvError::NoHashForNumber(probe)));
            },
            Err(StateKvError::Corrupted) => {
                assert(!all_resolvable(before, height, best)) by {
                    assert(hash_of(before, probe)->Some_0.len() != HASH_LEN);
                }
                return Err(EuropaRpcError::Client(StateKvError::Corrupted));
            },
            Err(e) => {
                proof {
                    assert(reverted_down_to(before, best, best) == before);
                }
                return Err(EuropaRpcError::Client(e));
            },
        }
        probe -= 1;
    }
    let mut current: u64 = best;
    proof {
        assert(reverted_down_to(before, best, best) == before);
    }
    while current != height
        invariant
            height <= current <= best,
            height < best,
            before == old(state_kv).contents(),
            state_kv.wf(),
            all_resolvable(before, height, best),
            state_kv.contents() == reverted_down_to(before, best, current),
            forall|n: u64| #[trigger] hash_of(state_kv.contents(), n) == hash_of(before, n),
        decreases current - height,
    {
        let ghost now = state_kv.contents();
        proof {
            assert(hash_of(before, current) is Some);
            assert forall|n: u64| ((current - 1) as u64) < n <= best implies (#[trigger] hash_of(
                before,
                n,
            )) is Some && hash_of(before, n)->Some_0.len() == HASH_LEN by {}
            lemma_reverted_one_more(before, best, current);
        }
        match state_kv.revert_all(current) {
            Ok(()) => {
                proof {
                    law_revert(now, hash_of(now, current)->Some_0, current);
                }
            },
            Err(StateKvError::Database(text)) => {
                assert(state_kv.contents() == reverted_down_to(before, best, current));
                return Err(EuropaRpcError::Client(StateKvError::Database(text)));
            },
            Err(e) => {
                assert(false);
                return Err(EuropaRpcError::Client(e));
            },
        }
        current -= 1;
    }
    Ok(())
}

/// Whether `r` is an answer to the question for the recorded state of the
/// block that `id` names, top-level or of a child. An error names the block
/// as the question did.
pub open spec fn state_kvs_result(
    c: Contents,
    id: NumberOrHash,
    hash: Option<BlockHash>,
    child: Option<Seq<u8>>,
    r: Result<Vec<(Vec<u8>, Option<Vec<u8>>)>, EuropaRpcError>,
) -> bool {
    match r {
        Ok(kvs) => hash is Some && match child {
            Some(child) => child_listing(c, hash->Some_0@, child, Ok(Some(kvs))),
            None => block_listing(c, hash->Some_0@, Ok(Some(kvs))),
        },
        Err(EuropaRpcError::InvalidBlockId(named)) => named == id && hash is None,
        Err(EuropaRpcError::NoStateKvs(named)) => named == id && hash is Some && child is None
            && block_listing(c, hash->Some_0@, Ok(None)),
        Err(EuropaRpcError::NoChildStateKvs(named, root)) => named == id && hash is Some && child
            == Some(root@) && child_listing(c, hash->Some_0@, root@, Ok(None)),
        Err(EuropaRpcError::Client(e)) => hash is Some && match child {
            Some(child) => child_listing(c, hash->Some_0@, child, Err(e)),
            None => block_listing(c, hash->Some_0@, Err(e)),
        },
        Err(_) => false,
    }
}

/// The modified state of a block: of `child` where one is given, else the
/// top-level one. `hash` is the hash of the block that `id` names, or
/// `None` where the chain knows no such block.
pub fn state_kvs(
    state_kv: &StateKv,
    id: NumberOrHash,
    hash: Option<BlockHash>,
    child: Option<&[u8]>,
) -> (r: Result<Vec<(Vec<u8>, Option<Vec<u8>>)>, EuropaRpcError>)
    requires
        state_kv.wf(),
    ensures
        state_kvs_result(state_kv.contents(), id, hash, crate::codec::opt_slice_view(child), r),
{
    let hash: BlockHash = match hash {
        Some(hash) => hash,
        None => {
            return Err(EuropaRpcError::InvalidBlockId(id));
        },
    };
    match child {
        Some(child) => match state_kv.get_child_kvs_by_hash(hash, child) {
            Ok(Some(kvs)) => Ok(kvs),
            Ok(None) => {
                let root: Vec<u8> = crate::block_tracing::parser::copy_range(child, 0, child.len());
                assert(root@ == child@) by {
                    assert(child@.subrange(0, child@.len() as int) == child@);
                }
                Err(EuropaRpcError::NoChildStateKvs(id, root))
            },
            Err(e) => Err(EuropaRpcError::Client(e)),
        },
        None => match state_kv.get_kvs_by_hash(hash) {
            Ok(Some(kvs)) => Ok(kvs),
            Ok(None) => Err(EuropaRpcError::NoStateKvs(id)),
            Err(e) => Err(EuropaRpcError::Client(e)),
        },
    }
}

/// Whether `r` is an answer to the question for the storage operations of
/// an extrinsic of the block that `id` names. An error names the block as
/// the question did.
pub open spec fn extrinsic_changes_result(
    c: Contents,
    id: NumberOrHash,
    number: Option<u64>,
    index: u32,
    r: Result<String, EuropaRpcError>,
) -> bool {
    match r {
        Ok(json) => number is Some && text_result(
            lookup(c, columns::EXTRINSIC_CHANGES, indexed_key(number->Some_0, index)),
            Ok(Some(json)),
        ),
        Err(EuropaRpcError::InvalidBlockId(named)) => named == id && number is None,
        Err(EuropaRpcError::NoExtrinsic(named, i)) => named == id && number is Some && i == index
            && lookup(c, columns::EXTRINSIC_CHANGES, indexed_key(number->Some_0, index)) is None,
        Err(EuropaRpcError::Client(e)) => number is Some && e is Database,
        Err(_) => false,
    }
}

/// The stored storage operations of extrinsic `index` of a block. `number`
/// is the number of the block that `id` names, or `None` where the chain
/// knows no such block.
pub fn extrinsic_changes(state_kv: &StateKv, id: NumberOrHash, number: Option<u64>, index: u32) -> (r:
    Result<String, EuropaRpcError>)
    requires
        state_kv.wf(),
    ensures
        extrinsic_changes_result(state_kv.contents(), id, number, index, r),
{
    let number: u64 = match number {
        Some(number) => number,
        None => {
            return Err(EuropaRpcError::InvalidBlockId(id));
        },
    };
    match state_kv.get_extrinsic_changes(number, index) {
        Ok(Some(json)) => Ok(json),
        Ok(None) => Err(EuropaRpcError::NoExtrinsic(id, index)),
        Err(e) => Err(EuropaRpcError::Client(e)),
    }
}

/// A rough estimate of how much gas a decent hardware consumes per second,
/// using native execution.
pub const GAS_PER_SECOND: u64 = 1_000_000_000_000;

/// The maximum amount of weight that the call and instantiate rpcs are
/// allowed to consume.
pub const GAS_LIMIT: u64 = 5_000_000_000_000;

/// Why the parameters of a contract call are refused.
#[derive(Clone, Copy, PartialEq, Eq, Debug)]
pub enum ContractCallError {
    /// Requested gas limit is greater than maximum allowed: the requested
    /// limit, the maximum.
    GasLimitTooHigh(u64, u64),
}

/// Refuses a gas limit above the maximum.
pub fn limit_gas(gas_limit: u64) -> (r: Result<(), ContractCallError>)
    ensures
        match r {
            Ok(()) => gas_limit <= GAS_LIMIT,
            Err(ContractCallError::GasLimitTooHigh(requested, allowed)) => gas_limit > GAS_LIMIT
                && requested == gas_limit && allowed == GAS_LIMIT,
        },
{
    if gas_limit > GAS_LIMIT {
        Err(ContractCallError::GasLimitTooHigh(gas_limit, GAS_LIMIT))
    } else {
        Ok(())
    }
}

/// An implementation of contract specific RPC methods.
pub struct ContractsExt<C> {
    pub client: std::sync::Arc<C>,
}

impl<C> ContractsExt<C> {
    /// Create new `Contracts` with the given reference to the client.
    pub fn new(client: std::sync::Arc<C>) -> (ext: Self)
        ensures
            ext.client == client,
    {
        ContractsExt { client }
    }
}

} // verus!
