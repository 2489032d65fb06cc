//! Server-side synchronization core for a collaborative document editor.
//!
//! The library receives client-submitted revisions, reconciles them against
//! concurrent edits of the same document, and produces the outbound messages
//! and persistence requests that carry the reconciled result back out. It is
//! organised leaf-first:
//!
//! - [`protocol`] — the data model: frames, revisions, sync responses, errors.
//! - [`codec`] — the binary wire-envelope codec and its payload codecs.
//! - [`checksum`] — content-hash verification for revision deltas.
//! - [`document`] — the per-document revision handler (reconciliation core).
//! - [`registry`] — the process-wide map from document id to its handler.
//! - [`session`] — routing of sync responses to sockets and to persistence.
//! - [`dispatch`] — decoding and routing of one inbound client frame.

pub mod checksum;
pub mod codec;
pub mod dispatch;
pub mod document;
pub mod protocol;
pub mod registry;
pub mod session;
