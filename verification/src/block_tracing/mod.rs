//! Tracing of the storage operations of an extrinsic.

pub mod events;
pub mod parser;
pub mod grouping;
pub mod subscriber;
