//! The columns of the store.

use vstd::prelude::*;

verus! {

/// Meta column.
pub const META: u32 = 0;

/// Top-level state entries, keyed by block hash and storage key.
pub const STATE_KV: u32 = 1;

/// Child state entries, keyed by block hash, child id and storage key.
pub const STATE_CHILD_KV: u32 = 2;

/// Kept free for an index over the state entries.
pub const STATE_KV_INDEX: u32 = 3;

/// Kept free for an index over the child state entries.
pub const STATE_CHILD_KV_INDEX: u32 = 4;

/// Block number by block hash.
pub const HASH_TO_NUMBER: u32 = 5;

/// Block hash by block number.
pub const NUMBER_TO_HASH: u32 = 6;

/// Contract call traces, keyed by block number and extrinsic index.
pub const TRACING: u32 = 7;

/// Storage operations of each extrinsic, keyed by block number and extrinsic
/// index.
pub const EXTRINSIC_CHANGES: u32 = 8;

} // verus!
