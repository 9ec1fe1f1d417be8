//! Route selection, load balancing, and health-aware failover.
//!
//! * [`Router`]: holds endpoints, picks one per request, and withdraws those
//!   that fail.
//! * [`Strategy`]: round robin, weighted round robin, or least connections.
//! * [`HealthTracker`]: the circuit breaker behind automatic failover.
//!
//! Consecutive failures withdraw an endpoint; after a cooldown it becomes
//! *recovering*, where probes decide its fate, one at a time. Success restores
//! it, failure restarts the cooldown. One request is risked rather than all of
//! them, and a recovering endpoint is probed ahead of ordinary selection because
//! that probe is what restores capacity.
//!
//! Health transitions depend on time, so every method that needs it takes an
//! [`Instant`](crate::time::Instant) from the caller.

pub mod health;
pub mod routing;

pub use crate::router::health::{default_cooldown, Health, HealthPolicy, HealthTracker};
pub use crate::router::health::{DEFAULT_FAILURE_THRESHOLD, DEFAULT_SUCCESS_THRESHOLD};
pub use crate::router::routing::{Endpoint, EndpointId, Router, RouterStats, Strategy};
