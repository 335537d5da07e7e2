//! A content-addressed word/metadata store gated by a two-party delegation
//! chain: a guarantor (the storage operator) counter-signs every record
//! submitted by a guarantee (a registered client), and reads are re-validated
//! against the registered, time-bounded guarantee relationships.
//!
//! The store itself is a transactional in-memory engine: registration rows,
//! double-signed path records, and an append-only word-occurrence log with a
//! materialized per-word count that is kept consistent with the log by
//! construction. Wall-clock time, nonce generation, and the cryptographic
//! signing of payloads are external collaborators: operations take the current
//! timestamp and freshly produced nonces/signatures as plain arguments, so
//! every contract holds for every value those collaborators may supply.

pub mod facade;
pub mod idf;
pub mod laws;
pub mod paths;
pub mod registry;
pub mod rows;
pub mod store;
pub mod types;
