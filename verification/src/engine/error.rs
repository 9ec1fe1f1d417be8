//! Errors of the engine.
//!
//! Failures are surfaced as typed [`Error`] variants that callers can inspect
//! and handle programmatically.

use vstd::prelude::*;

verus! {

/// The result of an engine operation.
pub type Result<T> = std::result::Result<T, Error>;

/// Something went wrong configuring or driving the engine.
#[derive(Debug, PartialEq, Eq)]
#[non_exhaustive]
pub enum Error {
    /// The engine was asked to start while it was running.
    AlreadyRunning,
    /// The engine was asked to stop before it was started.
    NotRunning,
    /// The engine was used after it had been shut down.
    AlreadyShutDown,
    /// A configuration value is out of range.
    InvalidConfig {
        /// The offending field.
        field: &'static str,
        /// What is wrong with it.
        reason: String,
    },
    /// An environment variable holds a value that cannot be used.
    InvalidEnvVar {
        /// The offending variable.
        variable: String,
        /// What is wrong with it.
        reason: String,
    },
    /// Logging could not be set up.
    LoggingInit(String),
}

/// An error as a value: its variant and its texts.
pub enum Problem {
    /// The engine was asked to start while it was running.
    AlreadyRunning,
    /// The engine was asked to stop before it was started.
    NotRunning,
    /// The engine was used after it had been shut down.
    AlreadyShutDown,
    /// A configuration value is out of range: the field and what is wrong.
    InvalidConfig(Seq<char>, Seq<char>),
    /// An environment variable cannot be used: its name and what is wrong.
    InvalidEnvVar(Seq<char>, Seq<char>),
    /// Logging could not be set up.
    LoggingInit(Seq<char>),
}

impl Problem {
    /// What the error says.
    pub open spec fn text(self) -> Seq<char> {
        match self {
            Problem::AlreadyRunning => "engine is already running"@,
            Problem::NotRunning => "engine is not running"@,
            Problem::AlreadyShutDown => "engine has already been shut down"@,
            Problem::InvalidConfig(field, reason) => "invalid configuration for `"@ + field + "`: "@
                + reason,
            Problem::InvalidEnvVar(variable, reason) => "environment variable `"@ + variable
                + "` is invalid: "@ + reason,
            Problem::LoggingInit(reason) => "failed to initialize logging: "@ + reason,
        }
    }
}

impl View for Error {
    type V = Problem;

    open spec fn view(&self) -> Problem {
        match *self {
            Error::AlreadyRunning => Problem::AlreadyRunning,
            Error::NotRunning => Problem::NotRunning,
            Error::AlreadyShutDown => Problem::AlreadyShutDown,
            Error::InvalidConfig { field, reason } => Problem::InvalidConfig(field@, reason@),
            Error::InvalidEnvVar { variable, reason } => Problem::InvalidEnvVar(variable@, reason@),
            Error::LoggingInit(reason) => Problem::LoggingInit(reason@),
        }
    }
}

impl Error {
    /// Builds an [`Error::InvalidConfig`].
    pub fn invalid_config(field: &'static str, reason: &str) -> (e: Error)
        ensures
            e@ == Problem::InvalidConfig(field@, reason@),
            e is InvalidConfig,
    {
        Error::InvalidConfig { field, reason: reason.to_owned() }
    }

    /// Builds an [`Error::InvalidEnvVar`].
    pub fn invalid_env_var(variable: &str, reason: &str) -> (e: Error)
        ensures
            e@ == Problem::InvalidEnvVar(variable@, reason@),
            e is InvalidEnvVar,
    {
        Error::InvalidEnvVar { variable: variable.to_owned(), reason: reason.to_owned() }
    }

    /// Returns what the error says.
    pub fn to_string(&self) -> (s: String)
        ensures
            s@ == self@.text(),
    {
        match self {
            Error::AlreadyRunning => "engine is already running".to_owned(),
            Error::NotRunning => "engine is not running".to_owned(),
            Error::AlreadyShutDown => "engine has already been shut down".to_owned(),
            Error::InvalidConfig { field, reason } => {
                let mut s = "invalid configuration for `".to_owned();
                s.append(field);
                s.append("`: ");
                s.append(reason.as_str());
                s
            },
            Error::InvalidEnvVar { variable, reason } => {
                let mut s = "environment variable `".to_owned();
                s.append(variable.as_str());
                s.append("` is invalid: ");
                s.append(reason.as_str());
                s
            },
            Error::LoggingInit(reason) => {
                let mut s = "failed to initialize logging: ".to_owned();
                s.append(reason.as_str());
                s
            },
        }
    }
}

} // verus!
