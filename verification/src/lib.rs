//! NexusNet: the building blocks of an adaptive networking engine, with their
//! behaviour stated in contracts.
//!
//! - [`protocol`]: frames on the wire, and how they are found in a byte stream.
//! - [`encryption`]: session keys, sealed messages and replay protection.
//! - [`compression`]: codecs, and the choice between them.
//! - [`cache`]: a bounded cache that forgets, and deduplication of payloads.
//! - [`router`]: endpoint health, and the choice of the next endpoint.
//! - [`analytics`]: latency distributions, throughput and connection statistics.
//! - [`optimizer`]: estimates of a link, its grade, and the advice that follows.
//! - [`plugin_api`]: plugins, their registry, and interceptor chains.
//! - [`engine`]: configuration and lifecycle; [`cli`]: what the command line says.
//!
//! [`time`], [`ratio`], [`rate`], [`smoothing`], [`exact`], [`wide`], [`text`] and
//! [`buffers`] hold what these share.
//!
//! The library computes nothing in floating point. Ratios are fractions, spans
//! are whole nanoseconds, averages are kept in fixed fractions of a unit, and the
//! line through recent samples is drawn with whole numbers of any size.

pub mod analytics;
pub mod buffers;
pub mod cache;
pub mod cli;
pub mod compression;
pub mod encryption;
pub mod engine;
pub mod exact;
pub mod optimizer;
pub mod plugin_api;
pub mod protocol;
pub mod rate;
pub mod ratio;
pub mod router;
pub mod smoothing;
pub mod text;
pub mod time;
pub mod wide;
