//! Classifies file records as known or unknown against a reference set of
//! MD5 and SHA-1 digests.
//!
//! The crate holds the decisions of a reconciliation run: how a record's
//! digests become its identity, which records an extension filter keeps,
//! which records are duplicates, what is asked of the reference store and
//! what each answer means. Reading the input stream and writing the two
//! result files is left to the caller.

pub mod classify;
pub mod extension;
pub mod identity;
pub mod laws;
pub mod pipeline;
pub mod record;
pub mod scan;
pub mod store;
pub mod text;

pub use vstd::hash_set::StringHashSet;
