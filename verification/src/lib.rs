//! Connection-lifecycle core for a pooled database client.
//!
//! The crate governs two things: when a physical connection is fit to be
//! handed out again (the recycle protocol in [`manager`]), and what
//! statement-preparation state each connection carries (the per-connection
//! [`cache::StatementCache`] together with the process-wide
//! [`registry::StatementCaches`] slot table, which supports clearing or
//! removing a statement from every live cache at once).
//!
//! Network I/O, TLS, and query execution are outside collaborators: the
//! library works on plain values (query text, parameter-type identifiers,
//! an opaque statement handle) and leaves the round trips to its callers.

pub mod cache;
pub mod manager;
pub mod registry;
pub mod wrapper;
