//! A tuple space: an associative shared memory where clients write ordered,
//! heterogeneous records ("tuples") and retrieve them by structural pattern
//! match rather than by key.
//!
//! The crate provides the value and pattern model, a single-node store with
//! tombstone-based removal and periodic compaction, a concurrency wrapper
//! that shares one store among many handles, a byte codec for snapshots, and
//! the deterministic replicated state machine driven by an external
//! consensus module.

pub mod codec;
pub mod error;
pub mod mutex_store;
pub mod path;
pub mod query_tuple;
pub mod state_machine;
pub mod store;
pub mod tuple;
pub mod types;
pub mod vec_store;
