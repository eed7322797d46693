//! An append-only event journal for event-sourced aggregates, backed by an
//! embedded SQLite database.
//!
//! The journal persists immutable event records keyed by `(aggregate_id,
//! sequence_id)`, and serves point reads and inclusive range reads whose
//! results come back deduplicated and ordered by sequence number. The modules
//! here hold the store's logic — the record shape and its ordering, the
//! journal semantics, pool configuration, the migration set and its
//! idempotence, connection-location parsing, and error translation — each
//! with its contract.

pub mod config;
pub mod errors;
pub mod journal;
pub mod laws;
pub mod location;
pub mod migrate;
pub mod record;
