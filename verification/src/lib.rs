//! A speculative parallel block-execution engine for an ordered list of
//! transactions.
//!
//! The engine executes a block of transactions optimistically, detects
//! conflicts after the fact, and re-executes affected transactions until the
//! committed output is exactly the output of running the block one
//! transaction at a time in index order. The pieces are: a multi-version
//! store for speculative reads and writes, a scheduler that hands out
//! execution and validation work, a worker loop, a delayed-value resolver
//! for commutative aggregate updates, and a finalizer that commits outputs
//! in index order.
//!
//! Around the engine stand the small shared vocabularies of the node it
//! serves: feature-flag sets for release proposals, the error kinds of the
//! storage APIs, the events an observability sink receives, digests for
//! pipeline items, and the utility coin types.

pub mod coins;
pub mod errors;
pub mod executor;
pub mod flags;
pub mod mv_store;
pub mod observability;
pub mod pipeline;
pub mod scheduler;
pub mod semantics;
pub mod sequential;
pub mod state;
pub mod transaction;
