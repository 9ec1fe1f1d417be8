//! Adaptive optimization: turning what is measured of the network into sending
//! decisions.
//!
//! Nothing here sends data or reaches into another subsystem. The functions
//! return recommendations that a caller may apply or ignore, which keeps the
//! policy testable on its own.

pub mod advisor;
pub mod congestion;
pub mod estimate;
pub mod network;
pub mod predict;
pub mod quality;
pub mod regression;
pub mod strategy;
pub mod window;

pub use crate::optimizer::advisor::{CompressionAdvice, Optimizer, Recommendation};
pub use crate::optimizer::advisor::{DEFAULT_PAYLOAD, MAX_PAYLOAD, MIN_PAYLOAD};
pub use crate::optimizer::advisor::{FAST_LINK_BYTES_PER_SECOND, SLOW_LINK_BYTES_PER_SECOND};
pub use crate::optimizer::congestion::default_queueing_threshold;
pub use crate::optimizer::congestion::{CongestionDetector, CongestionSignal, CongestionState};
pub use crate::optimizer::congestion::{CongestionWindow, Inflation, DEFAULT_SEGMENT};
pub use crate::optimizer::estimate::{default_smoothing, BandwidthEstimator, RttEstimator};
pub use crate::optimizer::estimate::{max_retransmit_timeout, min_retransmit_timeout};
pub use crate::optimizer::network::{NetworkOptimizer, OptimizationMetrics, OptimizationPlan};
pub use crate::optimizer::predict::{advise_send, advise_send_under_congestion};
pub use crate::optimizer::predict::{Forecast, SendAdvice, Trend, TrendPredictor};
pub use crate::optimizer::predict::DEFAULT_HORIZON_SECS;
pub use crate::optimizer::quality::{LossEstimator, NetworkQuality};
pub use crate::optimizer::strategy::{CacheStrategy, CompressionStrategy, DeltaSyncStrategy};
pub use crate::optimizer::strategy::{MIN_COMPRESSIBLE, MIN_DELTA_PAYLOAD};
pub use crate::optimizer::window::DEFAULT_WINDOW;
