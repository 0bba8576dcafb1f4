//! The extension through which a running contract hands its call trace to
//! the store.

use crate::codec::indexed_key;
use crate::columns;
use crate::db::{Contents, WriteOp};
use crate::engine::{write_result, StateKv};
use crate::error::StateKvError;
use vstd::prelude::*;
use vstd::utf8::encode_utf8;

verus! {

/// Contract tracing extension.
pub trait ContractTracingDb {
    /// What the store behind the extension holds.
    spec fn tracing_contents(&self) -> Contents;

    /// Whether the extension is sound.
    spec fn tracing_wf(&self) -> bool;

    /// Stores the call trace of extrinsic `index` of block `number`.
    fn set_tracing(&mut self, number: u32, index: u32, tracing: String) -> (r: Result<
        (),
        StateKvError,
    >)
        requires
            old(self).tracing_wf(),
        ensures
            final(self).tracing_wf(),
            write_result(
                old(self).tracing_contents(),
                final(self).tracing_contents(),
                seq![
                    WriteOp::Insert {
                        col: columns::TRACING,
                        key: indexed_key(number as u64, index),
                        value: encode_utf8(tracing@),
                    },
                ],
                r,
            ),
    ;
}

/// The store, as a store of call traces.
pub struct DbRef {
    persistent: StateKv,
}

impl DbRef {
    /// Create new instance of the store of call traces.
    pub fn new(persistent: StateKv) -> (db: DbRef)
        requires
            persistent.wf(),
        ensures
            db.tracing_wf(),
            db.tracing_contents() == persistent.contents(),
    {
        Self { persistent }
    }

    /// Gives the store back.
    pub fn into_inner(self) -> (store: StateKv)
        ensures
            store.contents() == self.tracing_contents(),
            store.wf() == self.tracing_wf(),
    {
        self.persistent
    }
}

impl ContractTracingDb for DbRef {
    closed spec fn tracing_contents(&self) -> Contents {
        self.persistent.contents()
    }

    closed spec fn tracing_wf(&self) -> bool {
        self.persistent.wf()
    }

    fn set_tracing(&mut self, number: u32, index: u32, tracing: String) -> (r: Result<
        (),
        StateKvError,
    >) {
        let number: u64 = number as u64;
        self.persistent.set_contract_tracing(number, index, tracing)
    }
}

/// Extension that supports contract tracing in externalities.
pub struct ContractTracingDbExt<O: ContractTracingDb>(pub O);

impl<O: ContractTracingDb> ContractTracingDbExt<O> {
    /// New instance of contract tracing extension.
    pub fn new(inner_db: O) -> (ext: Self)
        ensures
            ext.0 == inner_db,
    {
        Self(inner_db)
    }

    /// Stores the call trace that a contract hands over.
    pub fn store_tracing(&mut self, block: u32, index: u32, tracing: &[u8]) -> (r: Result<
        (),
        StateKvError,
    >)
        requires
            old(self).0.tracing_wf(),
        ensures
            final(self).0.tracing_wf(),
            write_result(
                old(self).0.tracing_contents(),
                final(self).0.tracing_contents(),
                seq![
                    WriteOp::Insert {
                        col: columns::TRACING,
                        key: indexed_key(block as u64, index),
                        value: encode_utf8(crate::text::text_of(tracing@)),
                    },
                ],
                r,
            ),
    {
        let tracing: String = crate::text::text_from_utf8_lossy(tracing);
        self.0.set_tracing(block, index, tracing)
    }
}

} // verus!
