//! The engine and its lifecycle.
//!
//! An engine moves through a small, strictly ordered set of states:
//!
//! ```text
//!  Created --start()--> Running --shutdown()--> ShuttingDown --> Stopped
//! ```
//!
//! Illegal transitions (starting twice, shutting down before starting, or using
//! an already-stopped engine) return a typed [`Error`] instead of panicking.

use crate::engine::config::{EngineConfig, EngineConfigBuilder, EnvText, EnvVars};
use crate::engine::config::{LogFormat, LogLevel, Settings};
use crate::engine::error::{Error, Problem, Result};
use crate::time::Duration;
use vstd::prelude::*;

verus! {

/// Where an engine stands in its lifecycle.
#[derive(Debug, Clone, Copy, PartialEq, Eq, Hash, Structural)]
#[non_exhaustive]
pub enum EngineState {
    /// Built, but not started.
    Created,
    /// Started and serving.
    Running,
    /// Asked to stop, and finishing its work.
    ShuttingDown,
    /// Stopped for good.
    Stopped,
}

impl EngineState {
    /// The state after a request to start, or why it is refused.
    pub open spec fn started(self) -> std::result::Result<EngineState, Problem> {
        match self {
            EngineState::Created => Ok(EngineState::Running),
            EngineState::Running | EngineState::ShuttingDown => Err(Problem::AlreadyRunning),
            EngineState::Stopped => Err(Problem::AlreadyShutDown),
        }
    }

    /// The state after a request to shut down, or why it is refused.
    pub open spec fn shut_down(self) -> std::result::Result<EngineState, Problem> {
        match self {
            EngineState::Running => Ok(EngineState::Stopped),
            EngineState::Created => Err(Problem::NotRunning),
            EngineState::ShuttingDown | EngineState::Stopped => Err(Problem::AlreadyShutDown),
        }
    }

    /// How far along its lifecycle the engine is.
    pub open spec fn rank(self) -> nat {
        match self {
            EngineState::Created => 0,
            EngineState::Running => 1,
            EngineState::ShuttingDown => 2,
            EngineState::Stopped => 3,
        }
    }

    /// The state in words.
    pub open spec fn text(self) -> Seq<char> {
        match self {
            EngineState::Created => "created"@,
            EngineState::Running => "running"@,
            EngineState::ShuttingDown => "shutting-down"@,
            EngineState::Stopped => "stopped"@,
        }
    }

    /// Returns the state in words.
    pub fn to_string(&self) -> (s: String)
        ensures
            s@ == self.text(),
    {
        match self {
            EngineState::Created => "created".to_owned(),
            EngineState::Running => "running".to_owned(),
            EngineState::ShuttingDown => "shutting-down".to_owned(),
            EngineState::Stopped => "stopped".to_owned(),
        }
    }
}

/// Every transition moves forward, so no state is entered twice.
pub proof fn lifecycle_moves_forward(s: EngineState)
    ensures
        s.started() matches Ok(t) ==> s.rank() < t.rank(),
        s.shut_down() matches Ok(t) ==> s.rank() < t.rank(),
{
}

/// A stopped engine stays stopped: it refuses every further request.
pub proof fn stopped_is_final(s: EngineState)
    requires
        s is Stopped,
    ensures
        s.started() == Err::<EngineState, Problem>(Problem::AlreadyShutDown),
        s.shut_down() == Err::<EngineState, Problem>(Problem::AlreadyShutDown),
{
}

/// An engine: a valid configuration and a place in the lifecycle.
#[derive(Debug)]
pub struct Engine {
    config: EngineConfig,
    state: EngineState,
}

impl Engine {
    /// The configuration.
    pub closed spec fn settings(&self) -> Settings {
        self.config@
    }

    /// Where the engine stands in its lifecycle.
    pub closed spec fn stage(&self) -> EngineState {
        self.state
    }

    /// Starts building an engine, from the default configuration.
    pub fn builder() -> (b: EngineBuilder)
        ensures
            b.settings() == Settings::initial(),
            !b.reads_env(),
    {
        EngineBuilder::new()
    }

    /// Builds an engine from a complete configuration.
    pub fn with_config(config: EngineConfig) -> (r: Result<Engine>)
        ensures
            match config@.problem() {
                None => r matches Ok(e) && e.settings() == config@ && e.stage() is Created,
                Some(p) => r matches Err(e) && e@ == p,
            },
    {
        Engine::builder().config(config).build()
    }

    /// Builds an engine from the default configuration.
    pub fn new() -> (r: Result<Engine>)
        ensures
            r matches Ok(e) && e.settings() == Settings::initial() && e.stage() is Created,
    {
        proof {
            crate::engine::config::default_is_valid();
        }
        Engine::builder().build()
    }

    /// Returns the configuration.
    pub fn config(&self) -> (c: &EngineConfig)
        ensures
            c@ == self.settings(),
    {
        &self.config
    }

    /// Returns where the engine stands in its lifecycle.
    pub fn state(&self) -> (s: EngineState)
        ensures
            s == self.stage(),
    {
        self.state
    }

    /// Returns `true` while the engine is running.
    pub fn is_running(&self) -> (r: bool)
        ensures
            r == (self.stage() is Running),
    {
        match self.state {
            EngineState::Running => true,
            _ => false,
        }
    }

    /// Starts the engine. Only a freshly created engine can be started.
    pub fn start(&mut self) -> (r: Result<()>)
        ensures
            final(self).settings() == old(self).settings(),
            match old(self).stage().started() {
                Ok(s) => r is Ok && final(self).stage() == s,
                Err(p) => (r matches Err(e) && e@ == p) && final(self).stage() == old(self).stage(),
            },
    {
        match self.state {
            EngineState::Created => {
                self.state = EngineState::Running;
                Ok(())
            },
            EngineState::Running | EngineState::ShuttingDown => Err(Error::AlreadyRunning),
            EngineState::Stopped => Err(Error::AlreadyShutDown),
        }
    }

    /// Shuts the engine down. Only a running engine can be shut down.
    pub fn shutdown(&mut self) -> (r: Result<()>)
        ensures
            final(self).settings() == old(self).settings(),
            match old(self).stage().shut_down() {
                Ok(s) => r is Ok && final(self).stage() == s,
                Err(p) => (r matches Err(e) && e@ == p) && final(self).stage() == old(self).stage(),
            },
    {
        match self.state {
            EngineState::Running => {
                self.state = EngineState::ShuttingDown;
                // The shutdown work of attached subsystems belongs here, while
                // the state says so.
                self.state = EngineState::Stopped;
                Ok(())
            },
            EngineState::Created => Err(Error::NotRunning),
            EngineState::ShuttingDown | EngineState::Stopped => Err(Error::AlreadyShutDown),
        }
    }
}

/// A fluent builder for [`Engine`].
#[derive(Debug)]
#[must_use]
pub struct EngineBuilder {
    inner: EngineConfigBuilder,
    apply_env: bool,
}

impl EngineBuilder {
    /// The configuration accumulated so far.
    pub closed spec fn settings(&self) -> Settings {
        self.inner@
    }

    /// Environment variables are to be laid on top.
    pub closed spec fn reads_env(&self) -> bool {
        self.apply_env
    }

    /// Creates a builder seeded with the default configuration.
    pub fn new() -> (b: EngineBuilder)
        ensures
            b.settings() == Settings::initial(),
            !b.reads_env(),
    {
        EngineBuilder { inner: EngineConfig::builder(), apply_env: false }
    }

    /// Replaces the whole configuration.
    pub fn config(self, config: EngineConfig) -> (b: EngineBuilder)
        ensures
            b.settings() == config@,
            b.reads_env() == self.reads_env(),
    {
        EngineBuilder { inner: config.into_builder(), apply_env: self.apply_env }
    }

    /// Sets the human-readable name of the engine.
    pub fn name(self, name: &str) -> (b: EngineBuilder)
        ensures
            b.settings() == (Settings { name: name@, ..self.settings() }),
            b.reads_env() == self.reads_env(),
    {
        EngineBuilder { inner: self.inner.name(name), apply_env: self.apply_env }
    }

    /// Sets the minimum log level.
    pub fn log_level(self, level: LogLevel) -> (b: EngineBuilder)
        ensures
            b.settings() == (Settings { log_level: level, ..self.settings() }),
            b.reads_env() == self.reads_env(),
    {
        EngineBuilder { inner: self.inner.log_level(level), apply_env: self.apply_env }
    }

    /// Sets the log format.
    pub fn log_format(self, format: LogFormat) -> (b: EngineBuilder)
        ensures
            b.settings() == (Settings { log_format: format, ..self.settings() }),
            b.reads_env() == self.reads_env(),
    {
        EngineBuilder { inner: self.inner.log_format(format), apply_env: self.apply_env }
    }

    /// Sets an explicit worker-thread count.
    pub fn worker_threads(self, count: usize) -> (b: EngineBuilder)
        ensures
            b.settings() == (Settings { worker_threads: Some(count), ..self.settings() }),
            b.reads_env() == self.reads_env(),
    {
        EngineBuilder { inner: self.inner.worker_threads(count), apply_env: self.apply_env }
    }

    /// Sets the graceful shutdown timeout.
    pub fn shutdown_timeout(self, timeout: Duration) -> (b: EngineBuilder)
        ensures
            b.settings() == (Settings { shutdown_nanos: timeout.nanos(), ..self.settings() }),
            b.reads_env() == self.reads_env(),
    {
        EngineBuilder { inner: self.inner.shutdown_timeout(timeout), apply_env: self.apply_env }
    }

    /// Sets whether the engine installs a global logging subscriber on build.
    pub fn install_logging(self, enabled: bool) -> (b: EngineBuilder)
        ensures
            b.settings() == (Settings { install_logging: enabled, ..self.settings() }),
            b.reads_env() == self.reads_env(),
    {
        EngineBuilder { inner: self.inner.install_logging(enabled), apply_env: self.apply_env }
    }

    /// Sets whether runtime metrics collection is enabled.
    pub fn metrics_enabled(self, enabled: bool) -> (b: EngineBuilder)
        ensures
            b.settings() == (Settings { metrics_enabled: enabled, ..self.settings() }),
            b.reads_env() == self.reads_env(),
    {
        EngineBuilder { inner: self.inner.metrics_enabled(enabled), apply_env: self.apply_env }
    }

    /// Sets whether environment variables are laid on top of the configuration.
    pub fn apply_env_overrides(self, enabled: bool) -> (b: EngineBuilder)
        ensures
            b.settings() == self.settings(),
            b.reads_env() == enabled,
    {
        EngineBuilder { inner: self.inner, apply_env: enabled }
    }

    /// Builds the engine. A builder that was told to apply the environment is
    /// built with [`EngineBuilder::build_with_env`].
    pub fn build(self) -> (r: Result<Engine>)
        requires
            !self.reads_env(),
        ensures
            match self.settings().problem() {
                None => r matches Ok(e) && e.settings() == self.settings() && e.stage() is Created,
                Some(p) => r matches Err(e) && e@ == p,
            },
    {
        proof {
            crate::engine::config::nothing_set_changes_nothing(self.settings());
        }
        let env = EnvVars::unset();
        self.build_with_env(&env)
    }

    /// Builds the engine in the given environment, which counts only if the
    /// builder was told to apply it.
    pub fn build_with_env(self, env: &EnvVars) -> (r: Result<Engine>)
        ensures
            match built(self.settings(), self.reads_env(), env@) {
                Ok(s) => r matches Ok(e) && e.settings() == s && e.stage() is Created,
                Err(p) => r matches Err(e) && e@ == p,
            },
    {
        let apply_env = self.apply_env;
        let config = match self.inner.build() {
            Ok(c) => c,
            Err(e) => {
                return Err(e);
            },
        };
        let config = if apply_env {
            match config.with_env_overrides(env) {
                Ok(c) => c,
                Err(e) => {
                    return Err(e);
                },
            }
        } else {
            config
        };
        Ok(Engine { config, state: EngineState::Created })
    }
}

impl Clone for EngineBuilder {
    fn clone(&self) -> (b: EngineBuilder)
        ensures
            b.settings() == self.settings(),
            b.reads_env() == self.reads_env(),
    {
        EngineBuilder { inner: self.inner.clone(), apply_env: self.apply_env }
    }
}

impl Default for EngineBuilder {
    fn default() -> (b: EngineBuilder)
        ensures
            b.settings() == Settings::initial(),
            !b.reads_env(),
    {
        EngineBuilder::new()
    }
}

/// The configuration of an engine that is built from `settings`: they have to be
/// valid on their own, and with the environment laid on top where that is asked
/// for.
pub open spec fn built(settings: Settings, reads_env: bool, env: EnvText) -> std::result::Result<
    Settings,
    Problem,
> {
    match settings.problem() {
        Some(p) => Err(p),
        None => if reads_env {
            settings.overridden(env)
        } else {
            Ok(settings)
        },
    }
}

/// Every engine that is built has a valid configuration.
pub proof fn built_engines_are_valid(settings: Settings, reads_env: bool, env: EnvText)
    ensures
        built(settings, reads_env, env) matches Ok(s) ==> s.problem() is None,
{
}

/// What an engine does when asked: it starts once, from where it was built, and shuts
/// down once, from running. Asked too early or twice, it says so.
pub proof fn engines_start_and_stop_once(s: EngineState)
    ensures
        s.started() is Ok <==> s is Created,
        s.started() matches Ok(t) ==> t is Running,
        s.started() == Err::<EngineState, Problem>(Problem::AlreadyRunning) <==> s is Running
            || s is ShuttingDown,
        s.started() == Err::<EngineState, Problem>(Problem::AlreadyShutDown) <==> s is Stopped,
        s.shut_down() is Ok <==> s is Running,
        s.shut_down() matches Ok(t) ==> t is Stopped,
        s.shut_down() == Err::<EngineState, Problem>(Problem::NotRunning) <==> s is Created,
        s.shut_down() == Err::<EngineState, Problem>(Problem::AlreadyShutDown) <==> s is ShuttingDown
            || s is Stopped,
{
}

/// The environment plays a part only where it is asked for, and cannot make up for
/// settings that are not valid themselves.
pub proof fn the_environment_has_to_be_asked_for(
    settings: Settings,
    reads_env: bool,
    env: EnvText,
    other: EnvText,
)
    ensures
        settings.problem() is Some ==> built(settings, reads_env, env) is Err,
        built(settings, false, env) == built(settings, false, other),
        settings.problem() is None ==> built(settings, false, env) == Ok::<Settings, Problem>(
            settings,
        ),
        settings.problem() is None ==> built(settings, true, env) == settings.overridden(env),
{
}

} // verus!
