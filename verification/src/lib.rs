//! Core data engine of a TV-series watch tracker.
//!
//! The crate covers the non-visual heart of the application: a keyed
//! read/write-through cache, timezone-aware release-time classification,
//! the per-series episode catalog with its temporal queries, and the
//! durable watch-tracking store with its derived statistics.

pub mod cache;
pub mod episodes;
pub mod sorted;
pub mod store;
pub mod text;
pub mod time;
pub mod title_bar;
pub mod trakt;
