//! Errors of the store.

use vstd::prelude::*;

verus! {

/// Why an operation of the store failed.
#[derive(Debug, PartialEq, Eq)]
pub enum StateKvError {
    /// The backend reported a failure; the text is its own description.
    Database(String),
    /// A stored record does not have the layout that this store writes.
    Corrupted,
    /// No hash is recorded for this block number.
    NoHashForNumber(u64),
    /// The backend did not answer a read of the last column that the store
    /// uses: it was opened with fewer columns, or the read failed.
    MissingColumns,
}

} // verus!
