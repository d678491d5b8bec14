//! A small verified library for shaping browser-history lookups.
//!
//! It percent-decodes URL strings, builds history search queries with
//! defaults, normalizes raw history entries, and computes "N days/weeks
//! ago" cutoffs from an injected clock.

pub mod error;
pub mod percent;
pub mod query;
pub mod shape;
pub mod timestamp;
