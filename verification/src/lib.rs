//! Semantic-analysis core of a static analyzer for a hardware-description
//! language.
//!
//! Given a parsed collection of design units grouped into named libraries,
//! the crate resolves cross-unit name references, enforces ordering and
//! visibility rules, and answers source-position queries.
//!
//! - [`ast`] models the design units and enumerates their name occurrences.
//! - [`search`] is a generic short-circuiting walk over the unit tree,
//!   driven by a pluggable set of node-kind hooks.
//! - [`analysis`] builds per-library unit indexes, fills every reference
//!   slot it can, and reports a diagnostic for every violation.
//! - [`query`] answers "what does the name under this cursor refer to" and
//!   "where is this declaration used".

pub mod analysis;
pub mod ast;
pub mod query;
pub mod search;
