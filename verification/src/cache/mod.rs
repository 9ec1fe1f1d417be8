//! Caching and deduplication.
//!
//! * [`LruCache`]: least-recently-used caching with optional per-entry expiry
//!   and a byte-aware capacity, so that a cache of variable-size payloads can be
//!   bounded by memory rather than entry count alone.
//! * [`Deduplicator`]: content-addressed deduplication, so that a payload that
//!   has already crossed the wire is sent as a short digest reference instead of
//!   again in full.

pub mod dedup;
pub mod lru;

pub use crate::cache::dedup::DEFAULT_MIN_DEDUP_SIZE;
pub use crate::cache::dedup::{DedupStats, DedupStore, Deduplicator, Digest, Reference};
pub use crate::cache::lru::{CacheKey, CacheStats, EvictionReason, LruCache, Weight};
