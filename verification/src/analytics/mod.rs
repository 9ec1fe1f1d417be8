//! Measurement and statistics: what the network actually did.
//!
//! * [`Histogram`] keeps distributions with percentiles, in bounded memory.
//! * [`RateMeter`] measures throughput, smoothed and over a lifetime.
//! * [`ConnectionStats`] keeps the bytes, frames, errors, losses, latency and
//!   jitter of one connection, summarised by [`ConnectionSnapshot`].
//!
//! Everything that measures a distribution reports percentiles: a mean of 40 ms
//! is consistent with every request taking 40 ms, and equally with 95% taking
//! 5 ms while the rest take 700 ms.

pub mod histogram;
pub mod stats;

pub use crate::analytics::histogram::{DistributionSummary, Histogram, Percent, BUCKET_COUNT};
pub use crate::analytics::stats::{ConnectionSnapshot, ConnectionStats, RateMeter};
pub use crate::analytics::stats::default_smoothing;
