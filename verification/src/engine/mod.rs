//! The engine: its lifecycle, its validated configuration and its errors.
//!
//! The engine owns configuration and a lifecycle state machine; the other
//! subsystems attach to the lifecycle established here.

pub mod config;
pub mod error;
pub mod lifecycle;
pub mod version;

pub use crate::engine::config::{EngineConfig, EngineConfigBuilder, EnvVars, LogFormat, LogLevel};
pub use crate::engine::error::{Error, Result};
pub use crate::engine::lifecycle::{Engine, EngineBuilder, EngineState};
pub use crate::engine::version::{version_string, NAME, VERSION};
pub use crate::engine::version::{VERSION_MAJOR, VERSION_MINOR, VERSION_PATCH};
