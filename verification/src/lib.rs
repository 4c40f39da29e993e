//! Aggregation of a community profile from a gaming platform's public pages.
//!
//! The crate normalizes a user-supplied identifier into page addresses,
//! extracts labeled counters from page markup with structural selectors,
//! repairs and decodes a quasi-structured payload embedded in a script
//! region of the profile page, and merges the three pipeline outcomes into
//! one `Profile` record with per-pipeline fallback.

pub mod counters;
pub mod error;
pub mod payload;
pub mod profile;
pub mod text;
pub mod url;
