//! The store of the state changes of a sandbox node, and what the node
//! around it decides.
//!
//! For every block that the node processes, the store keeps the raw storage
//! changes of that block, top-level and of each child storage, under the
//! hash of the block; the hash and the number of the block for each other;
//! and, for every extrinsic, the storage operations that it performed and
//! the trace of its contract calls. A block can be reverted as a whole.
//!
//! `codec` composes the physical keys, `db` states what the backend is taken
//! to do, `transaction` and `engine` are the store, `statekv` is the contract
//! that the store keeps towards the block import in `client`, `model` and
//! `laws` say what holds of it, `source` decides how its database is
//! opened. The other modules hold what the commands, the remote calls, the
//! proposer and the sandbox of the node decide.

pub mod block_tracing;
pub mod client;
pub mod codec;
pub mod columns;
pub mod db;
pub mod engine;
pub mod error;
pub mod extensions;
pub mod hex;
pub mod laws;
pub mod model;
pub mod params;
pub mod proposer;
pub mod rpc;
pub mod run_cmd;
pub mod runtime;
pub mod sandbox;
pub mod source;
pub mod statekv;
pub mod statekv_cmd;
pub mod text;
pub mod transaction;
pub mod workspace;
