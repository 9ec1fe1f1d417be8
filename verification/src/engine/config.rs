//! Engine configuration.
//!
//! [`EngineConfig`] is the single source of truth for how an engine behaves. It
//! can be constructed in three ways, which compose freely: with
//! [`EngineConfig::default`], with the fluent [`EngineConfigBuilder`], and by
//! laying `NEXUSNET_*` environment variables on top of an existing
//! configuration with [`EngineConfig::with_env_overrides`].

use crate::engine::error::{Error, Problem, Result};
use crate::text;
use crate::time::Duration;
use std::str::FromStr;
use vstd::prelude::*;

verus! {

/// Prefix of every environment variable that overrides a setting.
pub const ENV_PREFIX: &'static str = "NEXUSNET_";

/// How long a graceful shutdown may take by default, in seconds.
pub const DEFAULT_SHUTDOWN_TIMEOUT_SECS: u64 = 30;

/// The verbosity of engine logging.
#[derive(Debug, Clone, Copy, PartialEq, Eq, Structural)]
#[non_exhaustive]
pub enum LogLevel {
    /// Extremely verbose, per-operation tracing.
    Trace,
    /// Detailed diagnostic information useful while debugging.
    Debug,
    /// High-level operational messages. This is the default.
    Info,
    /// Recoverable problems that deserve attention.
    Warn,
    /// Errors that abort the operation in progress.
    Error,
    /// Logging disabled entirely.
    Off,
}

impl LogLevel {
    /// The level as a lowercase filter directive.
    pub open spec fn text(self) -> Seq<char> {
        match self {
            LogLevel::Trace => "trace"@,
            LogLevel::Debug => "debug"@,
            LogLevel::Info => "info"@,
            LogLevel::Warn => "warn"@,
            LogLevel::Error => "error"@,
            LogLevel::Off => "off"@,
        }
    }

    /// Returns the level as a lowercase filter directive, such as `"info"` or
    /// `"off"`.
    pub fn as_directive(self) -> (s: &'static str)
        ensures
            s@ == self.text(),
    {
        match self {
            LogLevel::Trace => "trace",
            LogLevel::Debug => "debug",
            LogLevel::Info => "info",
            LogLevel::Warn => "warn",
            LogLevel::Error => "error",
            LogLevel::Off => "off",
        }
    }

    /// Returns the name of the level.
    pub fn to_string(&self) -> (s: String)
        ensures
            s@ == self.text(),
    {
        self.as_directive().to_owned()
    }

    /// The level that a lower-case name stands for. `warning` is another name for
    /// `warn`.
    pub open spec fn of_name(name: Seq<char>) -> Option<LogLevel> {
        if name == "trace"@ {
            Some(LogLevel::Trace)
        } else if name == "debug"@ {
            Some(LogLevel::Debug)
        } else if name == "info"@ {
            Some(LogLevel::Info)
        } else if name == "warn"@ || name == "warning"@ {
            Some(LogLevel::Warn)
        } else if name == "error"@ {
            Some(LogLevel::Error)
        } else if name == "off"@ {
            Some(LogLevel::Off)
        } else {
            None
        }
    }

    /// What `s` says when read as a level, in upper or lower case and with
    /// white space around it.
    pub open spec fn parsed(s: Seq<char>) -> std::result::Result<LogLevel, Problem> {
        let name = text::lowered(text::trimmed(s));
        match LogLevel::of_name(name) {
            Some(l) => Ok(l),
            None => Err(
                Problem::InvalidConfig("log_level"@, "unknown log level `"@ + name + "`"@),
            ),
        }
    }

    /// Parses a case-insensitive level name.
    pub fn from_name(s: &str) -> (r: Result<LogLevel>)
        ensures
            match LogLevel::parsed(s@) {
                Ok(l) => r == Ok::<LogLevel, Error>(l),
                Err(p) => r matches Err(e) && e@ == p,
            },
    {
        let lower = text::lowercase(text::trim(s).as_str());
        let name = lower.as_str();
        if text::same(name, "trace") {
            Ok(LogLevel::Trace)
        } else if text::same(name, "debug") {
            Ok(LogLevel::Debug)
        } else if text::same(name, "info") {
            Ok(LogLevel::Info)
        } else if text::same(name, "warn") || text::same(name, "warning") {
            Ok(LogLevel::Warn)
        } else if text::same(name, "error") {
            Ok(LogLevel::Error)
        } else if text::same(name, "off") {
            Ok(LogLevel::Off)
        } else {
            let mut reason = "unknown log level `".to_owned();
            reason.append(name);
            reason.append("`");
            Err(Error::invalid_config("log_level", reason.as_str()))
        }
    }
}

impl Default for LogLevel {
    fn default() -> (l: LogLevel)
        ensures
            l == LogLevel::Info,
    {
        LogLevel::Info
    }
}

impl FromStr for LogLevel {
    type Err = Error;

    fn from_str(s: &str) -> (r: std::result::Result<LogLevel, Error>)
        ensures
            match LogLevel::parsed(s@) {
                Ok(l) => r == Ok::<LogLevel, Error>(l),
                Err(p) => r matches Err(e) && e@ == p,
            },
    {
        LogLevel::from_name(s)
    }
}

/// The on-screen format of log events.
#[derive(Debug, Clone, Copy, PartialEq, Eq, Structural)]
#[non_exhaustive]
pub enum LogFormat {
    /// Human-readable, single-line-per-event output. This is the default.
    Full,
    /// Condensed human-readable output with less metadata.
    Compact,
    /// Multi-line, indented output aimed at local development.
    Pretty,
    /// Machine-readable newline-delimited JSON, aimed at log aggregators.
    Json,
}

impl LogFormat {
    /// The name of the format.
    pub open spec fn text(self) -> Seq<char> {
        match self {
            LogFormat::Full => "full"@,
            LogFormat::Compact => "compact"@,
            LogFormat::Pretty => "pretty"@,
            LogFormat::Json => "json"@,
        }
    }

    /// Returns the name of the format.
    pub fn to_string(&self) -> (s: String)
        ensures
            s@ == self.text(),
    {
        match self {
            LogFormat::Full => "full".to_owned(),
            LogFormat::Compact => "compact".to_owned(),
            LogFormat::Pretty => "pretty".to_owned(),
            LogFormat::Json => "json".to_owned(),
        }
    }

    /// The format that a lower-case name stands for.
    pub open spec fn of_name(name: Seq<char>) -> Option<LogFormat> {
        if name == "full"@ {
            Some(LogFormat::Full)
        } else if name == "compact"@ {
            Some(LogFormat::Compact)
        } else if name == "pretty"@ {
            Some(LogFormat::Pretty)
        } else if name == "json"@ {
            Some(LogFormat::Json)
        } else {
            None
        }
    }

    /// What `s` says when read as a format, in upper or lower case and with
    /// white space around it.
    pub open spec fn parsed(s: Seq<char>) -> std::result::Result<LogFormat, Problem> {
        let name = text::lowered(text::trimmed(s));
        match LogFormat::of_name(name) {
            Some(f) => Ok(f),
            None => Err(
                Problem::InvalidConfig("log_format"@, "unknown log format `"@ + name + "`"@),
            ),
        }
    }

    /// Parses a case-insensitive format name.
    pub fn from_name(s: &str) -> (r: Result<LogFormat>)
        ensures
            match LogFormat::parsed(s@) {
                Ok(f) => r == Ok::<LogFormat, Error>(f),
                Err(p) => r matches Err(e) && e@ == p,
            },
    {
        let lower = text::lowercase(text::trim(s).as_str());
        let name = lower.as_str();
        if text::same(name, "full") {
            Ok(LogFormat::Full)
        } else if text::same(name, "compact") {
            Ok(LogFormat::Compact)
        } else if text::same(name, "pretty") {
            Ok(LogFormat::Pretty)
        } else if text::same(name, "json") {
            Ok(LogFormat::Json)
        } else {
            let mut reason = "unknown log format `".to_owned();
            reason.append(name);
            reason.append("`");
            Err(Error::invalid_config("log_format", reason.as_str()))
        }
    }
}

impl Default for LogFormat {
    fn default() -> (f: LogFormat)
        ensures
            f == LogFormat::Full,
    {
        LogFormat::Full
    }
}

impl FromStr for LogFormat {
    type Err = Error;

    fn from_str(s: &str) -> (r: std::result::Result<LogFormat, Error>)
        ensures
            match LogFormat::parsed(s@) {
                Ok(f) => r == Ok::<LogFormat, Error>(f),
                Err(p) => r matches Err(e) && e@ == p,
            },
    {
        LogFormat::from_name(s)
    }
}

/// Complete configuration of an engine.
#[derive(Debug, PartialEq, Eq)]
pub struct EngineConfig {
    /// Human-readable name for this engine instance. Must be non-empty.
    pub name: String,
    /// Minimum severity of log events emitted by the engine.
    pub log_level: LogLevel,
    /// The rendering format used when the engine installs logging.
    pub log_format: LogFormat,
    /// Number of worker threads, or `None` to let the runtime decide. When
    /// given, it must be at least one.
    pub worker_threads: Option<usize>,
    /// Maximum time a graceful shutdown may take. Must be non-zero.
    pub shutdown_timeout: Duration,
    /// Whether building the engine should install a global logging subscriber.
    pub install_logging: bool,
    /// Whether runtime metrics collection is enabled.
    pub metrics_enabled: bool,
}

/// A configuration as a value.
pub struct Settings {
    /// The name of the engine instance.
    pub name: Seq<char>,
    /// Minimum severity of log events.
    pub log_level: LogLevel,
    /// The rendering format of log events.
    pub log_format: LogFormat,
    /// Number of worker threads, if fixed.
    pub worker_threads: Option<usize>,
    /// Maximum time of a graceful shutdown, in nanoseconds.
    pub shutdown_nanos: nat,
    /// Whether to install a logging subscriber.
    pub install_logging: bool,
    /// Whether to collect metrics.
    pub metrics_enabled: bool,
}

impl View for EngineConfig {
    type V = Settings;

    open spec fn view(&self) -> Settings {
        Settings {
            name: self.name@,
            log_level: self.log_level,
            log_format: self.log_format,
            worker_threads: self.worker_threads,
            shutdown_nanos: self.shutdown_timeout.nanos(),
            install_logging: self.install_logging,
            metrics_enabled: self.metrics_enabled,
        }
    }
}

impl Settings {
    /// The default configuration.
    pub open spec fn initial() -> Settings {
        Settings {
            name: "nexusnet"@,
            log_level: LogLevel::Info,
            log_format: LogFormat::Full,
            worker_threads: None,
            shutdown_nanos: (DEFAULT_SHUTDOWN_TIMEOUT_SECS * 1_000_000_000) as nat,
            install_logging: false,
            metrics_enabled: false,
        }
    }

    /// What is wrong with the configuration: the first problem, if there is one.
    pub open spec fn problem(self) -> Option<Problem> {
        if text::trimmed(self.name).len() == 0 {
            Some(Problem::InvalidConfig("name"@, "engine name must not be empty"@))
        } else if self.worker_threads == Some(0usize) {
            Some(
                Problem::InvalidConfig(
                    "worker_threads"@,
                    "worker thread count must be at least 1 when set"@,
                ),
            )
        } else if self.shutdown_nanos == 0 {
            Some(
                Problem::InvalidConfig(
                    "shutdown_timeout"@,
                    "shutdown timeout must be greater than zero"@,
                ),
            )
        } else {
            None
        }
    }

    /// The configuration with environment variables laid on top, or the first
    /// variable that cannot be used, or what is wrong with the outcome.
    pub open spec fn overridden(self, env: EnvText) -> std::result::Result<Settings, Problem> {
        let name = match set_value(env.name) {
            Some(v) => v,
            None => self.name,
        };
        let level = level_override(env.log_level, self.log_level);
        let format = format_override(env.log_format, self.log_format);
        let threads = threads_override(env.worker_threads, self.worker_threads);
        let timeout = timeout_override(env.shutdown_timeout_secs, self.shutdown_nanos);
        let logging = bool_override(env.install_logging, "INSTALL_LOGGING"@, self.install_logging);
        let metrics = bool_override(env.metrics_enabled, "METRICS_ENABLED"@, self.metrics_enabled);
        if level is Err {
            Err(level->Err_0)
        } else if format is Err {
            Err(format->Err_0)
        } else if threads is Err {
            Err(threads->Err_0)
        } else if timeout is Err {
            Err(timeout->Err_0)
        } else if logging is Err {
            Err(logging->Err_0)
        } else if metrics is Err {
            Err(metrics->Err_0)
        } else {
            let result = Settings {
                name,
                log_level: level->Ok_0,
                log_format: format->Ok_0,
                worker_threads: threads->Ok_0,
                shutdown_nanos: timeout->Ok_0,
                install_logging: logging->Ok_0,
                metrics_enabled: metrics->Ok_0,
            };
            match result.problem() {
                Some(p) => Err(p),
                None => Ok(result),
            }
        }
    }
}

/// The full name of an environment variable.
pub open spec fn env_name(suffix: Seq<char>) -> Seq<char> {
    ENV_PREFIX@ + suffix
}

/// The value of a variable, where it is set and not blank.
pub open spec fn set_value(raw: Option<Seq<char>>) -> Option<Seq<char>> {
    match raw {
        Some(v) => if text::trimmed(v).len() == 0 {
            None
        } else {
            Some(v)
        },
        None => None,
    }
}

/// The log level after an override.
pub open spec fn level_override(
    raw: Option<Seq<char>>,
    current: LogLevel,
) -> std::result::Result<LogLevel, Problem> {
    match set_value(raw) {
        None => Ok(current),
        Some(v) => match LogLevel::parsed(v) {
            Ok(l) => Ok(l),
            Err(p) => Err(Problem::InvalidEnvVar(env_name("LOG_LEVEL"@), p.text())),
        },
    }
}

/// The log format after an override.
pub open spec fn format_override(
    raw: Option<Seq<char>>,
    current: LogFormat,
) -> std::result::Result<LogFormat, Problem> {
    match set_value(raw) {
        None => Ok(current),
        Some(v) => match LogFormat::parsed(v) {
            Ok(f) => Ok(f),
            Err(p) => Err(Problem::InvalidEnvVar(env_name("LOG_FORMAT"@), p.text())),
        },
    }
}

/// What a worker-thread setting says: a positive number, or `auto` for none.
pub open spec fn threads_parsed(v: Seq<char>) -> std::result::Result<Option<usize>, Problem> {
    let trimmed = text::trimmed(v);
    if text::lowered(trimmed) == "auto"@ {
        Ok(None)
    } else {
        match text::parsed(trimmed, usize::MAX as nat) {
            None => Err(
                Problem::InvalidEnvVar(
                    env_name("WORKER_THREADS"@),
                    "expected a positive integer or `auto`"@,
                ),
            ),
            Some(n) => if n == 0 {
                Err(
                    Problem::InvalidEnvVar(
                        env_name("WORKER_THREADS"@),
                        "worker thread count must be at least 1"@,
                    ),
                )
            } else {
                Ok(Some(n as usize))
            },
        }
    }
}

/// The worker threads after an override.
pub open spec fn threads_override(
    raw: Option<Seq<char>>,
    current: Option<usize>,
) -> std::result::Result<Option<usize>, Problem> {
    match set_value(raw) {
        None => Ok(current),
        Some(v) => threads_parsed(v),
    }
}

/// The shutdown timeout after an override given in seconds, in nanoseconds.
pub open spec fn timeout_override(raw: Option<Seq<char>>, current: nat) -> std::result::Result<
    nat,
    Problem,
> {
    match set_value(raw) {
        None => Ok(current),
        Some(v) => match text::parsed(text::trimmed(v), u64::MAX as nat) {
            Some(secs) => Ok(secs * 1_000_000_000),
            None => Err(
                Problem::InvalidEnvVar(
                    env_name("SHUTDOWN_TIMEOUT_SECS"@),
                    "expected a non-negative integer number of seconds"@,
                ),
            ),
        },
    }
}

/// What a boolean setting says.
pub open spec fn bool_parsed(v: Seq<char>, suffix: Seq<char>) -> std::result::Result<
    bool,
    Problem,
> {
    let name = text::lowered(text::trimmed(v));
    if name == "1"@ || name == "true"@ || name == "yes"@ || name == "on"@ {
        Ok(true)
    } else if name == "0"@ || name == "false"@ || name == "no"@ || name == "off"@ {
        Ok(false)
    } else {
        Err(
            Problem::InvalidEnvVar(
                env_name(suffix),
                "expected a boolean (`true`/`false`, `1`/`0`, `yes`/`no`, `on`/`off`)"@,
            ),
        )
    }
}

/// A boolean setting after an override.
pub open spec fn bool_override(
    raw: Option<Seq<char>>,
    suffix: Seq<char>,
    current: bool,
) -> std::result::Result<bool, Problem> {
    match set_value(raw) {
        None => Ok(current),
        Some(v) => bool_parsed(v, suffix),
    }
}

/// The values of the environment variables that override settings, as they were
/// found; `None` for one that is not set.
#[derive(Debug)]
pub struct EnvVars {
    /// `NEXUSNET_NAME`.
    pub name: Option<String>,
    /// `NEXUSNET_LOG_LEVEL`.
    pub log_level: Option<String>,
    /// `NEXUSNET_LOG_FORMAT`.
    pub log_format: Option<String>,
    /// `NEXUSNET_WORKER_THREADS`; the literal `auto` clears the setting.
    pub worker_threads: Option<String>,
    /// `NEXUSNET_SHUTDOWN_TIMEOUT_SECS`, in whole seconds.
    pub shutdown_timeout_secs: Option<String>,
    /// `NEXUSNET_INSTALL_LOGGING`.
    pub install_logging: Option<String>,
    /// `NEXUSNET_METRICS_ENABLED`.
    pub metrics_enabled: Option<String>,
}

/// The environment variables as values.
pub struct EnvText {
    /// `NEXUSNET_NAME`.
    pub name: Option<Seq<char>>,
    /// `NEXUSNET_LOG_LEVEL`.
    pub log_level: Option<Seq<char>>,
    /// `NEXUSNET_LOG_FORMAT`.
    pub log_format: Option<Seq<char>>,
    /// `NEXUSNET_WORKER_THREADS`.
    pub worker_threads: Option<Seq<char>>,
    /// `NEXUSNET_SHUTDOWN_TIMEOUT_SECS`.
    pub shutdown_timeout_secs: Option<Seq<char>>,
    /// `NEXUSNET_INSTALL_LOGGING`.
    pub install_logging: Option<Seq<char>>,
    /// `NEXUSNET_METRICS_ENABLED`.
    pub metrics_enabled: Option<Seq<char>>,
}

/// The characters of a value, where there is one.
pub open spec fn chars(v: Option<String>) -> Option<Seq<char>> {
    match v {
        Some(s) => Some(s@),
        None => None,
    }
}

impl View for EnvVars {
    type V = EnvText;

    open spec fn view(&self) -> EnvText {
        EnvText {
            name: chars(self.name),
            log_level: chars(self.log_level),
            log_format: chars(self.log_format),
            worker_threads: chars(self.worker_threads),
            shutdown_timeout_secs: chars(self.shutdown_timeout_secs),
            install_logging: chars(self.install_logging),
            metrics_enabled: chars(self.metrics_enabled),
        }
    }
}

impl EnvText {
    /// An environment in which none of the variables is set.
    pub open spec fn unset() -> EnvText {
        EnvText {
            name: None,
            log_level: None,
            log_format: None,
            worker_threads: None,
            shutdown_timeout_secs: None,
            install_logging: None,
            metrics_enabled: None,
        }
    }
}

impl EnvVars {
    /// An environment in which none of the variables is set.
    pub fn unset() -> (e: EnvVars)
        ensures
            e@ == EnvText::unset(),
    {
        EnvVars {
            name: None,
            log_level: None,
            log_format: None,
            worker_threads: None,
            shutdown_timeout_secs: None,
            install_logging: None,
            metrics_enabled: None,
        }
    }
}

/// Without variables to lay on top, a valid configuration stays as it is, and an
/// invalid one is refused.
pub proof fn nothing_set_changes_nothing(s: Settings)
    ensures
        s.overridden(EnvText::unset()) == match s.problem() {
            Some(p) => Err::<Settings, Problem>(p),
            None => Ok(s),
        },
{
}

/// Whatever comes out of laying environment variables on top is valid.
pub proof fn overriding_validates(s: Settings, env: EnvText)
    ensures
        s.overridden(env) matches Ok(after) ==> after.problem() is None,
{
}

/// Builds the full name of an environment variable.
pub fn env_key(suffix: &str) -> (s: String)
    ensures
        s@ == env_name(suffix@),
{
    let mut s = ENV_PREFIX.to_owned();
    s.append(suffix);
    s
}

/// Returns the value of a variable, where it is set and not blank.
pub fn read_env(raw: &Option<String>) -> (r: Option<&String>)
    ensures
        match r {
            Some(v) => set_value(chars(*raw)) == Some(v@),
            None => set_value(chars(*raw)) is None,
        },
{
    match raw {
        Some(value) => {
            let trimmed = text::trim(value.as_str());
            if text::same(trimmed.as_str(), "") {
                proof {
                    reveal_strlit("");
                }
                None
            } else {
                proof {
                    reveal_strlit("");
                    if text::trimmed(value@).len() == 0 {
                        assert(text::trimmed(value@) =~= ""@);
                    }
                }
                Some(value)
            }
        },
        None => None,
    }
}

/// Parses a worker-thread override, treating `auto` as "let the runtime decide".
pub fn parse_worker_threads(value: &str) -> (r: Result<Option<usize>>)
    ensures
        match threads_parsed(value@) {
            Ok(n) => r == Ok::<Option<usize>, Error>(n),
            Err(p) => r matches Err(e) && e@ == p && e is InvalidEnvVar,
        },
{
    let trimmed = text::trim(value);
    if text::same(text::lowercase(trimmed.as_str()).as_str(), "auto") {
        return Ok(None);
    }
    match text::parse_unsigned(trimmed.as_str(), usize::MAX as u64) {
        None => Err(
            Error::invalid_env_var(
                env_key("WORKER_THREADS").as_str(),
                "expected a positive integer or `auto`",
            ),
        ),
        Some(count) => {
            if count == 0 {
                Err(
                    Error::invalid_env_var(
                        env_key("WORKER_THREADS").as_str(),
                        "worker thread count must be at least 1",
                    ),
                )
            } else {
                Ok(Some(count as usize))
            }
        },
    }
}

/// Parses a permissive boolean from an environment variable value.
pub fn parse_bool(value: &str, suffix: &str) -> (r: Result<bool>)
    ensures
        match bool_parsed(value@, suffix@) {
            Ok(b) => r == Ok::<bool, Error>(b),
            Err(p) => r matches Err(e) && e@ == p && e is InvalidEnvVar,
        },
{
    let lower = text::lowercase(text::trim(value).as_str());
    let name = lower.as_str();
    if text::same(name, "1") || text::same(name, "true") || text::same(name, "yes") || text::same(
        name,
        "on",
    ) {
        Ok(true)
    } else if text::same(name, "0") || text::same(name, "false") || text::same(name, "no")
        || text::same(name, "off") {
        Ok(false)
    } else {
        Err(
            Error::invalid_env_var(
                env_key(suffix).as_str(),
                "expected a boolean (`true`/`false`, `1`/`0`, `yes`/`no`, `on`/`off`)",
            ),
        )
    }
}

impl Clone for EngineConfig {
    fn clone(&self) -> (c: EngineConfig)
        ensures
            c@ == self@,
    {
        EngineConfig {
            name: self.name.clone(),
            log_level: self.log_level,
            log_format: self.log_format,
            worker_threads: self.worker_threads,
            shutdown_timeout: self.shutdown_timeout,
            install_logging: self.install_logging,
            metrics_enabled: self.metrics_enabled,
        }
    }
}

impl Default for EngineConfig {
    fn default() -> (c: EngineConfig)
        ensures
            c@ == Settings::initial(),
    {
        EngineConfig {
            name: "nexusnet".to_owned(),
            log_level: LogLevel::Info,
            log_format: LogFormat::Full,
            worker_threads: None,
            shutdown_timeout: Duration::from_secs(DEFAULT_SHUTDOWN_TIMEOUT_SECS),
            install_logging: false,
            metrics_enabled: false,
        }
    }
}

/// The default configuration is valid.
pub proof fn default_is_valid()
    ensures
        Settings::initial().problem() is None,
{
    reveal_strlit("nexusnet");
    let s = "nexusnet"@;
    assert(s[0] == 'n' && s.last() == 't');
    assert(!text::is_space('n') && !text::is_space('t'));
    assert(text::trim_start(s) == s);
    assert(text::trim_end(s) == s);
}

impl EngineConfig {
    /// Starts building a configuration, from the defaults.
    pub fn builder() -> (b: EngineConfigBuilder)
        ensures
            b@ == Settings::initial(),
    {
        EngineConfigBuilder::new()
    }

    /// Converts this configuration back into a builder, seeded with the current
    /// field values.
    pub fn into_builder(self) -> (b: EngineConfigBuilder)
        ensures
            b@ == self@,
    {
        EngineConfigBuilder { config: self }
    }

    /// Validates the configuration, returning an error describing the first
    /// problem found.
    pub fn validate(&self) -> (r: Result<()>)
        ensures
            match self@.problem() {
                None => r is Ok,
                Some(p) => r matches Err(e) && e@ == p && e is InvalidConfig,
            },
    {
        let trimmed = text::trim(self.name.as_str());
        proof {
            reveal_strlit("");
            if text::trimmed(self.name@).len() == 0 {
                assert(text::trimmed(self.name@) =~= ""@);
            }
        }
        if text::same(trimmed.as_str(), "") {
            return Err(Error::invalid_config("name", "engine name must not be empty"));
        }
        match self.worker_threads {
            Some(0) => {
                return Err(
                    Error::invalid_config(
                        "worker_threads",
                        "worker thread count must be at least 1 when set",
                    ),
                );
            },
            _ => {},
        }
        if self.shutdown_timeout.is_zero() {
            return Err(
                Error::invalid_config(
                    "shutdown_timeout",
                    "shutdown timeout must be greater than zero",
                ),
            );
        }
        Ok(())
    }

    /// Returns this configuration with environment variables laid on top of the
    /// current values. A variable that is not set, or blank, changes nothing.
    ///
    /// The outcome is validated before it is handed back.
    pub fn with_env_overrides(self, env: &EnvVars) -> (r: Result<EngineConfig>)
        ensures
            match self@.overridden(env@) {
                Ok(s) => r matches Ok(c) && c@ == s,
                Err(p) => r matches Err(e) && e@ == p,
            },
    {
        let name = match read_env(&env.name) {
            Some(value) => value.clone(),
            None => self.name,
        };
        let log_level = match level_from_env(&env.log_level, self.log_level) {
            Ok(level) => level,
            Err(e) => {
                return Err(e);
            },
        };
        let log_format = match format_from_env(&env.log_format, self.log_format) {
            Ok(format) => format,
            Err(e) => {
                return Err(e);
            },
        };
        let worker_threads = match threads_from_env(&env.worker_threads, self.worker_threads) {
            Ok(threads) => threads,
            Err(e) => {
                return Err(e);
            },
        };
        let shutdown_timeout = match timeout_from_env(
            &env.shutdown_timeout_secs,
            self.shutdown_timeout,
        ) {
            Ok(timeout) => timeout,
            Err(e) => {
                return Err(e);
            },
        };
        let install_logging = match bool_from_env(
            &env.install_logging,
            "INSTALL_LOGGING",
            self.install_logging,
        ) {
            Ok(b) => b,
            Err(e) => {
                return Err(e);
            },
        };
        let metrics_enabled = match bool_from_env(
            &env.metrics_enabled,
            "METRICS_ENABLED",
            self.metrics_enabled,
        ) {
            Ok(b) => b,
            Err(e) => {
                return Err(e);
            },
        };
        let config = EngineConfig {
            name,
            log_level,
            log_format,
            worker_threads,
            shutdown_timeout,
            install_logging,
            metrics_enabled,
        };
        match config.validate() {
            Ok(()) => Ok(config),
            Err(e) => Err(e),
        }
    }
}

fn level_from_env(raw: &Option<String>, current: LogLevel) -> (r: Result<LogLevel>)
    ensures
        match level_override(chars(*raw), current) {
            Ok(l) => r == Ok::<LogLevel, Error>(l),
            Err(p) => r matches Err(e) && e@ == p,
        },
{
    match read_env(raw) {
        None => Ok(current),
        Some(value) => match LogLevel::from_name(value.as_str()) {
            Ok(level) => Ok(level),
            Err(e) => Err(
                Error::invalid_env_var(env_key("LOG_LEVEL").as_str(), e.to_string().as_str()),
            ),
        },
    }
}

fn format_from_env(raw: &Option<String>, current: LogFormat) -> (r: Result<LogFormat>)
    ensures
        match format_override(chars(*raw), current) {
            Ok(f) => r == Ok::<LogFormat, Error>(f),
            Err(p) => r matches Err(e) && e@ == p,
        },
{
    match read_env(raw) {
        None => Ok(current),
        Some(value) => match LogFormat::from_name(value.as_str()) {
            Ok(format) => Ok(format),
            Err(e) => Err(
                Error::invalid_env_var(env_key("LOG_FORMAT").as_str(), e.to_string().as_str()),
            ),
        },
    }
}

fn threads_from_env(raw: &Option<String>, current: Option<usize>) -> (r: Result<Option<usize>>)
    ensures
        match threads_override(chars(*raw), current) {
            Ok(n) => r == Ok::<Option<usize>, Error>(n),
            Err(p) => r matches Err(e) && e@ == p,
        },
{
    match read_env(raw) {
        None => Ok(current),
        Some(value) => parse_worker_threads(value.as_str()),
    }
}

fn timeout_from_env(raw: &Option<String>, current: Duration) -> (r: Result<Duration>)
    ensures
        match timeout_override(chars(*raw), current.nanos()) {
            Ok(n) => r matches Ok(d) && d.nanos() == n,
            Err(p) => r matches Err(e) && e@ == p,
        },
{
    match read_env(raw) {
        None => Ok(current),
        Some(value) => match text::parse_unsigned(text::trim(value.as_str()).as_str(), u64::MAX) {
            Some(secs) => Ok(Duration::from_secs(secs)),
            None => Err(
                Error::invalid_env_var(
                    env_key("SHUTDOWN_TIMEOUT_SECS").as_str(),
                    "expected a non-negative integer number of seconds",
                ),
            ),
        },
    }
}

fn bool_from_env(raw: &Option<String>, suffix: &str, current: bool) -> (r: Result<bool>)
    ensures
        match bool_override(chars(*raw), suffix@, current) {
            Ok(b) => r == Ok::<bool, Error>(b),
            Err(p) => r matches Err(e) && e@ == p,
        },
{
    match read_env(raw) {
        None => Ok(current),
        Some(value) => parse_bool(value.as_str(), suffix),
    }
}

/// A fluent builder for [`EngineConfig`].
#[derive(Debug)]
#[must_use]
pub struct EngineConfigBuilder {
    config: EngineConfig,
}

impl View for EngineConfigBuilder {
    type V = Settings;

    closed spec fn view(&self) -> Settings {
        self.config@
    }
}

impl EngineConfigBuilder {
    /// Creates a builder seeded with the defaults.
    pub fn new() -> (b: EngineConfigBuilder)
        ensures
            b@ == Settings::initial(),
    {
        EngineConfigBuilder { config: EngineConfig::default() }
    }

    /// Sets the human-readable name of the engine.
    pub fn name(self, name: &str) -> (b: EngineConfigBuilder)
        ensures
            b@ == (Settings { name: name@, ..self@ }),
    {
        EngineConfigBuilder { config: EngineConfig { name: name.to_owned(), ..self.config } }
    }

    /// Sets the minimum log level.
    pub fn log_level(self, level: LogLevel) -> (b: EngineConfigBuilder)
        ensures
            b@ == (Settings { log_level: level, ..self@ }),
    {
        EngineConfigBuilder { config: EngineConfig { log_level: level, ..self.config } }
    }

    /// Sets the log format.
    pub fn log_format(self, format: LogFormat) -> (b: EngineConfigBuilder)
        ensures
            b@ == (Settings { log_format: format, ..self@ }),
    {
        EngineConfigBuilder { config: EngineConfig { log_format: format, ..self.config } }
    }

    /// Sets an explicit worker-thread count.
    pub fn worker_threads(self, count: usize) -> (b: EngineConfigBuilder)
        ensures
            b@ == (Settings { worker_threads: Some(count), ..self@ }),
    {
        EngineConfigBuilder { config: EngineConfig { worker_threads: Some(count), ..self.config } }
    }

    /// Clears the worker-thread count, so that the runtime chooses.
    pub fn auto_worker_threads(self) -> (b: EngineConfigBuilder)
        ensures
            b@ == (Settings { worker_threads: None, ..self@ }),
    {
        EngineConfigBuilder { config: EngineConfig { worker_threads: None, ..self.config } }
    }

    /// Sets the graceful shutdown timeout.
    pub fn shutdown_timeout(self, timeout: Duration) -> (b: EngineConfigBuilder)
        ensures
            b@ == (Settings { shutdown_nanos: timeout.nanos(), ..self@ }),
    {
        EngineConfigBuilder { config: EngineConfig { shutdown_timeout: timeout, ..self.config } }
    }

    /// Sets whether the engine installs a global logging subscriber on build.
    pub fn install_logging(self, enabled: bool) -> (b: EngineConfigBuilder)
        ensures
            b@ == (Settings { install_logging: enabled, ..self@ }),
    {
        EngineConfigBuilder { config: EngineConfig { install_logging: enabled, ..self.config } }
    }

    /// Sets whether runtime metrics collection is enabled.
    pub fn metrics_enabled(self, enabled: bool) -> (b: EngineConfigBuilder)
        ensures
            b@ == (Settings { metrics_enabled: enabled, ..self@ }),
    {
        EngineConfigBuilder { config: EngineConfig { metrics_enabled: enabled, ..self.config } }
    }

    /// Validates and returns the accumulated configuration.
    ///
    /// A valid configuration turned into a builder and built again comes out
    /// unchanged.
    pub fn build(self) -> (r: Result<EngineConfig>)
        ensures
            match self@.problem() {
                None => r matches Ok(c) && c@ == self@,
                Some(p) => r matches Err(e) && e@ == p && e is InvalidConfig,
            },
    {
        match self.config.validate() {
            Ok(()) => Ok(self.config),
            Err(e) => Err(e),
        }
    }
}

impl Clone for EngineConfigBuilder {
    fn clone(&self) -> (b: EngineConfigBuilder)
        ensures
            b@ == self@,
    {
        EngineConfigBuilder { config: self.config.clone() }
    }
}

impl Default for EngineConfigBuilder {
    fn default() -> (b: EngineConfigBuilder)
        ensures
            b@ == Settings::initial(),
    {
        EngineConfigBuilder::new()
    }
}

/// Every level and every format goes by its own name, `warn` also by a longer one, and
/// nothing else is a name.
pub proof fn names_stand_for_settings(name: Seq<char>)
    ensures
        LogLevel::of_name(name) == Some(LogLevel::Trace) <==> name == "trace"@,
        LogLevel::of_name(name) == Some(LogLevel::Debug) <==> name == "debug"@,
        LogLevel::of_name(name) == Some(LogLevel::Info) <==> name == "info"@,
        LogLevel::of_name(name) == Some(LogLevel::Warn) <==> name == "warn"@ || name
            == "warning"@,
        LogLevel::of_name(name) == Some(LogLevel::Error) <==> name == "error"@,
        LogLevel::of_name(name) == Some(LogLevel::Off) <==> name == "off"@,
        LogFormat::of_name(name) == Some(LogFormat::Full) <==> name == "full"@,
        LogFormat::of_name(name) == Some(LogFormat::Compact) <==> name == "compact"@,
        LogFormat::of_name(name) == Some(LogFormat::Pretty) <==> name == "pretty"@,
        LogFormat::of_name(name) == Some(LogFormat::Json) <==> name == "json"@,
{
    reveal_strlit("trace");
    reveal_strlit("debug");
    reveal_strlit("info");
    reveal_strlit("warn");
    reveal_strlit("warning");
    reveal_strlit("error");
    reveal_strlit("off");
    reveal_strlit("full");
    reveal_strlit("compact");
    reveal_strlit("pretty");
    reveal_strlit("json");
    assert("trace"@[0] == 't' && "debug"@[0] == 'd' && "info"@[0] == 'i' && "warn"@[0] == 'w'
        && "warning"@[0] == 'w' && "error"@[0] == 'e' && "off"@[0] == 'o');
    assert("full"@[0] == 'f' && "compact"@[0] == 'c' && "pretty"@[0] == 'p' && "json"@[0] == 'j');
}

/// Names are read whatever their case and the white space around them.
pub proof fn names_are_read_in_any_case(s: Seq<char>, other: Seq<char>)
    requires
        text::lowered(text::trimmed(s)) == text::lowered(text::trimmed(other)),
    ensures
        LogLevel::parsed(s) == LogLevel::parsed(other),
        LogFormat::parsed(s) == LogFormat::parsed(other),
        LogLevel::of_name(text::lowered(text::trimmed(s))) matches Some(l) ==> LogLevel::parsed(s)
            == Ok::<LogLevel, Problem>(l),
        LogFormat::of_name(text::lowered(text::trimmed(s))) matches Some(f) ==> LogFormat::parsed(s)
            == Ok::<LogFormat, Problem>(f),
        LogLevel::parsed(s) is Ok <==> LogLevel::of_name(text::lowered(text::trimmed(s))) is Some,
        LogFormat::parsed(s) is Ok <==> LogFormat::of_name(text::lowered(text::trimmed(s)))
            is Some,
{
}

/// What a valid configuration takes: a name that is more than white space, at least one
/// thread where their number is set, and some time to shut down.
pub proof fn valid_settings_are_usable(s: Settings)
    ensures
        s.problem() is None <==> (exists|i: int|
            0 <= i < s.name.len() && !text::is_space(#[trigger] s.name[i])) && s.worker_threads
            != Some(0usize) && s.shutdown_nanos > 0,
        s.problem() matches Some(p) ==> p is InvalidConfig,
{
    blank_text_is_trimmed_away(s.name);
}

proof fn blank_text_is_trimmed_away(s: Seq<char>)
    ensures
        text::trimmed(s).len() > 0 <==> exists|i: int|
            0 <= i < s.len() && !text::is_space(#[trigger] s[i]),
{
    text::trimming_takes_the_white_space_off(s);
    let (a, b) = choose|a: int, b: int|
        {
            &&& 0 <= a <= b <= s.len()
            &&& #[trigger] s.subrange(a, b) == text::trimmed(s)
            &&& forall|i: int| 0 <= i < a || b <= i < s.len() ==> text::is_space(#[trigger] s[i])
        };
    assert(text::trimmed(s).len() == b - a);
    if b > a {
        assert(text::trimmed(s)[0] == s[a]);
    }
}

/// A variable counts where it is set to more than white space, as it was found.
pub proof fn blank_variables_do_not_count(v: Seq<char>)
    ensures
        set_value(None) is None,
        set_value(Some(v)) is Some <==> exists|i: int|
            0 <= i < v.len() && !text::is_space(#[trigger] v[i]),
        set_value(Some(v)) is Some ==> set_value(Some(v)) == Some(v),
{
    blank_text_is_trimmed_away(v);
}

/// Each variable sets its own setting and no other; what no variable sets stays.
pub proof fn each_variable_sets_its_own(s: Settings, env: EnvText, after: Settings)
    requires
        s.overridden(env) == Ok::<Settings, Problem>(after),
    ensures
        match set_value(env.name) {
            Some(v) => after.name == v,
            None => after.name == s.name,
        },
        match set_value(env.log_level) {
            Some(v) => LogLevel::parsed(v) == Ok::<LogLevel, Problem>(after.log_level),
            None => after.log_level == s.log_level,
        },
        match set_value(env.log_format) {
            Some(v) => LogFormat::parsed(v) == Ok::<LogFormat, Problem>(after.log_format),
            None => after.log_format == s.log_format,
        },
        match set_value(env.worker_threads) {
            Some(v) => match after.worker_threads {
                Some(n) => n >= 1 && text::parsed(text::trimmed(v), usize::MAX as nat) == Some(
                    n as nat,
                ),
                None => text::lowered(text::trimmed(v)) == "auto"@,
            },
            None => after.worker_threads == s.worker_threads,
        },
        match set_value(env.shutdown_timeout_secs) {
            Some(v) => text::parsed(text::trimmed(v), u64::MAX as nat) matches Some(secs)
                && after.shutdown_nanos == secs * 1_000_000_000,
            None => after.shutdown_nanos == s.shutdown_nanos,
        },
        match set_value(env.install_logging) {
            Some(v) => says(v, after.install_logging),
            None => after.install_logging == s.install_logging,
        },
        match set_value(env.metrics_enabled) {
            Some(v) => says(v, after.metrics_enabled),
            None => after.metrics_enabled == s.metrics_enabled,
        },
{
}

/// The text says yes, or no, in one of the words for it.
pub open spec fn says(v: Seq<char>, yes: bool) -> bool {
    let word = text::lowered(text::trimmed(v));
    if yes {
        word == "1"@ || word == "true"@ || word == "yes"@ || word == "on"@
    } else {
        word == "0"@ || word == "false"@ || word == "no"@ || word == "off"@
    }
}

/// Yes and no are four words each, and nothing else is either.
pub proof fn yes_and_no_are_four_words_each(v: Seq<char>, suffix: Seq<char>)
    ensures
        bool_parsed(v, suffix) == Ok::<bool, Problem>(true) <==> says(v, true),
        bool_parsed(v, suffix) == Ok::<bool, Problem>(false) <==> says(v, false),
        bool_parsed(v, suffix) is Err <==> !says(v, true) && !says(v, false),
{
    reveal_strlit("1");
    reveal_strlit("true");
    reveal_strlit("yes");
    reveal_strlit("on");
    reveal_strlit("0");
    reveal_strlit("false");
    reveal_strlit("no");
    reveal_strlit("off");
    assert("1"@[0] == '1' && "true"@[0] == 't' && "yes"@[0] == 'y' && "on"@.len() == 2);
    assert("0"@[0] == '0' && "false"@[0] == 'f' && "no"@[0] == 'n' && "off"@.len() == 3);
    assert("on"@[0] == 'o' && "off"@[0] == 'o');
}

/// A variable that cannot be used is refused under its own full name, and only one
/// that is set can be.
pub proof fn refused_variables_are_named(raw: Option<Seq<char>>, suffix: Seq<char>)
    ensures
        raw is None ==> level_override(raw, LogLevel::Info) is Ok && format_override(
            raw,
            LogFormat::Full,
        ) is Ok && threads_override(raw, None) is Ok && timeout_override(raw, 1) is Ok
            && bool_override(raw, suffix, true) is Ok,
        level_override(raw, LogLevel::Info) matches Err(p) ==> (p matches Problem::InvalidEnvVar(
            name,
            _,
        ) && name == "NEXUSNET_"@ + "LOG_LEVEL"@),
        format_override(raw, LogFormat::Full) matches Err(p) ==> (p matches Problem::InvalidEnvVar(
            name,
            _,
        ) && name == "NEXUSNET_"@ + "LOG_FORMAT"@),
        threads_override(raw, None) matches Err(p) ==> (p matches Problem::InvalidEnvVar(name, _)
            && name == "NEXUSNET_"@ + "WORKER_THREADS"@),
        timeout_override(raw, 1) matches Err(p) ==> (p matches Problem::InvalidEnvVar(name, _)
            && name == "NEXUSNET_"@ + "SHUTDOWN_TIMEOUT_SECS"@),
        bool_override(raw, suffix, true) matches Err(p) ==> (p matches Problem::InvalidEnvVar(
            name,
            _,
        ) && name == "NEXUSNET_"@ + suffix),
{
}

/// What holds unless it is set otherwise.
pub proof fn defaults_are_quiet()
    ensures
        ({
            let s = Settings::initial();
            &&& s.name == "nexusnet"@
            &&& s.log_level is Info && s.log_format is Full
            &&& s.worker_threads is None
            &&& s.shutdown_nanos == 30 * 1_000_000_000
            &&& !s.install_logging && !s.metrics_enabled
        }),
{
}

} // verus!
