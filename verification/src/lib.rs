//! A local-first note store whose notes are optionally synchronized with a
//! remote backend, referenced only by opaque remote ids.
//!
//! The heart of the crate is the reconciliation engine: the algorithm that
//! merges one remote note payload into the local store idempotently, keyed
//! either by the remote id or by a stable local identifier, so that replaying
//! a sync never duplicates a note and never destroys the identity of a note
//! that was authored locally before it ever touched the remote system.
//!
//! The store itself, its identity scheme, the listing order, and the forward
//! migration of older tables are all verified here over an in-memory model of
//! the note table. Persistence, transport and platform integration are thin
//! unverified glue around this crate.

pub mod identity;
pub mod listing;
pub mod migrate;
pub mod order;
pub mod reconcile;
pub mod relay;
pub mod store;
pub mod templates;
