//! Extension points: the traits a third party implements, and a registry that
//! loads them.
//!
//! * [`Plugin`] is the lifecycle trait every plugin implements.
//! * [`Interceptor`] and [`InterceptorChain`] are the data path, where payloads
//!   can be observed or transformed.
//! * [`PluginRegistry`] registers, loads and unloads plugins.
//! * [`ApiVersion`] is the compatibility check that decides what may load.

pub mod chain;
pub mod error;
pub mod metadata;
pub mod names;
pub mod plugin;
pub mod registry;

pub use crate::plugin_api::chain::{Action, Interceptor, InterceptorChain, Link};
pub use crate::plugin_api::error::{Error, Result};
pub use crate::plugin_api::metadata::{current_api_version, ApiVersion, PluginMetadata};
pub use crate::plugin_api::plugin::{Plugin, PluginContext, PluginState};
pub use crate::plugin_api::registry::{Held, PluginInfo, PluginRegistry, RegistryStats};
