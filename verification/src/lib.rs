//! Purification of streaming-source declarations.
//!
//! A source declaration arrives from the parser with references to external
//! state: broker addresses to probe, remote schemas to fetch, replication
//! publications to introspect, cloud credentials to validate. Before the
//! declaration may be admitted to a catalog it is *purified*: every such
//! reference is resolved exactly once and replaced by a literal value, so
//! that instantiating the source later needs no further network access.
//!
//! All decisions of the pipeline live here and are verified. The unavoidable
//! external calls (broker round trips, schema-registry fetches, descriptor
//! compilation, publication introspection, credential probes, file reads)
//! are driven from outside: the purifier hands out an [`purify::Action`],
//! the caller performs it and feeds the outcome back as an
//! [`purify::Event`], until the purifier reports the fully purified
//! statement or the first error.

pub mod ast;
pub mod catalog;
pub mod cloud;
pub mod connections;
pub mod csr;
pub mod envelopes;
pub mod errors;
pub mod kafka;
pub mod options;
pub mod purify;
pub mod replication;
pub mod strutil;
