//! Staged font-fallback resolution.
//!
//! Given a read-only registry of fonts, an ordered list of eligible font
//! keys, and the platform's fallback tables, the iterator in this crate
//! produces candidate fonts one at a time, walking four tiers in strict
//! priority order: explicit default families, per-script fallback families,
//! universal common families, and finally any non-forbidden font.

pub mod candidates;
pub mod laws;
pub mod model;
pub mod scan;
pub mod search;
