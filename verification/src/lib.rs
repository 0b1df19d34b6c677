//! History-mutation core of a version-control engine.
//!
//! Commits are immutable, content-addressed nodes of a DAG held in an
//! append-only store. A descendant-transform engine propagates a per-commit
//! rewrite consistently to every descendant, remapping parent pointers in
//! topological order. A transaction collects the resulting graph mutations
//! and publishes them atomically, and a pluggable signing backend governs
//! when a cryptographic signature is added, kept, or stripped.

use vstd::prelude::*;

pub mod args;
pub mod builder;
pub mod commands;
pub mod commit;
pub mod idset;
pub mod laws;
pub mod repo;
pub mod rewrite;
pub mod signing;
pub mod store;

verus! {

} // verus!
