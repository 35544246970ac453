//! Identifier resolution and deduplicated persistence for bibliographic
//! linked-data imports.
//!
//! - [`index`]: dense first-seen identifiers for string keys.
//! - [`hashing`]: content-addressed and random identifiers.
//! - [`pgcode`]: the escaping of bulk-load text fields.
//! - [`sink`]: the deduplicating, batching node sink.
//! - [`coordinator`]: the resolution of graph edges to identifier triples.
//! - [`language`]: record languages and the bags that combine them.
//! - [`names`]: parsed personal-name entries.
//! - [`authors`]: author languages combined by name.
pub mod authors;
pub mod coordinator;
pub mod hashing;
pub mod index;
pub mod language;
pub mod names;
pub mod pgcode;
pub mod sink;
