//! Errors raised by the plugin system.

use crate::plugin_api::metadata::ApiVersion;
use vstd::prelude::*;

verus! {

/// The result of a plugin operation.
pub type Result<T> = std::result::Result<T, Error>;

/// Something went wrong loading or running a plugin.
#[derive(Debug, Clone, PartialEq, Eq)]
#[allow(inconsistent_fields)]
#[non_exhaustive]
pub enum Error {
    /// The plugin targets an API version this build cannot honour.
    ///
    /// Refusing is the only safe response: a plugin built against a different
    /// API would misbehave at runtime.
    IncompatibleApi {
        /// The name of the plugin.
        name: String,
        /// The API version the plugin was built against.
        required: ApiVersion,
        /// The API version this build provides.
        provided: ApiVersion,
    },
    /// A plugin with this name is already registered.
    DuplicateName {
        /// The conflicting name.
        name: String,
    },
    /// The declared name of the plugin cannot be used as a key.
    InvalidName {
        /// The offending name.
        name: String,
    },
    /// No plugin is registered under this name.
    NotFound {
        /// The name that was looked up.
        name: String,
    },
    /// The plugin refused to load.
    LoadFailed {
        /// The name of the plugin.
        name: String,
        /// What the plugin reported.
        reason: String,
    },
    /// A setting was missing or malformed.
    Configuration {
        /// The key of the setting.
        key: String,
        /// Why it could not be used.
        reason: String,
    },
    /// An interceptor failed while processing a payload.
    Interceptor {
        /// The name of the interceptor.
        name: String,
        /// What it reported.
        reason: String,
    },
}

/// An error as a value: its variant, its texts and its versions.
pub enum Problem {
    /// The plugin, the API version it needs and the one there is.
    IncompatibleApi(Seq<char>, ApiVersion, ApiVersion),
    /// The conflicting name.
    DuplicateName(Seq<char>),
    /// The offending name.
    InvalidName(Seq<char>),
    /// The name that was looked up.
    NotFound(Seq<char>),
    /// The plugin and what it reported.
    LoadFailed(Seq<char>, Seq<char>),
    /// The key of the setting and why it could not be used.
    Configuration(Seq<char>, Seq<char>),
    /// The interceptor and what it reported.
    Interceptor(Seq<char>, Seq<char>),
}

impl Problem {
    /// What the error says.
    pub open spec fn text(self) -> Seq<char> {
        match self {
            Problem::IncompatibleApi(name, required, provided) => "plugin '"@ + name
                + "' targets API "@ + required.text() + ", but this build provides "@
                + provided.text(),
            Problem::DuplicateName(name) => "a plugin named '"@ + name
                + "' is already registered"@,
            Problem::InvalidName(name) => "the plugin name '"@ + name
                + "' is not usable: it is empty or whitespace"@,
            Problem::NotFound(name) => "no plugin named '"@ + name + "' is registered"@,
            Problem::LoadFailed(name, reason) => "plugin '"@ + name + "' failed to load: "@
                + reason,
            Problem::Configuration(key, reason) => "setting '"@ + key + "' is unusable: "@ + reason,
            Problem::Interceptor(name, reason) => "interceptor '"@ + name + "' failed: "@ + reason,
        }
    }

    /// The plugin can never work here.
    pub open spec fn permanent(self) -> bool {
        self is IncompatibleApi || self is InvalidName || self is DuplicateName
    }
}

impl View for Error {
    type V = Problem;

    open spec fn view(&self) -> Problem {
        match *self {
            Error::IncompatibleApi { name, required, provided } => Problem::IncompatibleApi(
                name@,
                required,
                provided,
            ),
            Error::DuplicateName { name } => Problem::DuplicateName(name@),
            Error::InvalidName { name } => Problem::InvalidName(name@),
            Error::NotFound { name } => Problem::NotFound(name@),
            Error::LoadFailed { name, reason } => Problem::LoadFailed(name@, reason@),
            Error::Configuration { key, reason } => Problem::Configuration(key@, reason@),
            Error::Interceptor { name, reason } => Problem::Interceptor(name@, reason@),
        }
    }
}

/// A result with its error as a value.
pub open spec fn outcome<T>(r: Result<T>) -> std::result::Result<T, Problem> {
    match r {
        Ok(v) => Ok(v),
        Err(e) => Err(e@),
    }
}

impl Error {
    /// Returns `true` if the error means the plugin can never work here, so that
    /// retrying cannot help.
    pub fn is_permanent(&self) -> (r: bool)
        ensures
            r == self@.permanent(),
    {
        match self {
            Error::IncompatibleApi { .. } => true,
            Error::InvalidName { .. } => true,
            Error::DuplicateName { .. } => true,
            _ => false,
        }
    }

    /// Returns what the error says.
    pub fn to_string(&self) -> (s: String)
        ensures
            s@ == self@.text(),
    {
        match self {
            Error::IncompatibleApi { name, required, provided } => {
                let mut s = quoted("plugin '", name.as_str(), "' targets API ");
                s.append(required.to_string().as_str());
                s.append(", but this build provides ");
                s.append(provided.to_string().as_str());
                s
            },
            Error::DuplicateName { name } => quoted(
                "a plugin named '",
                name.as_str(),
                "' is already registered",
            ),
            Error::InvalidName { name } => quoted(
                "the plugin name '",
                name.as_str(),
                "' is not usable: it is empty or whitespace",
            ),
            Error::NotFound { name } => quoted(
                "no plugin named '",
                name.as_str(),
                "' is registered",
            ),
            Error::LoadFailed { name, reason } => {
                let mut s = quoted("plugin '", name.as_str(), "' failed to load: ");
                s.append(reason.as_str());
                s
            },
            Error::Configuration { key, reason } => {
                let mut s = quoted("setting '", key.as_str(), "' is unusable: ");
                s.append(reason.as_str());
                s
            },
            Error::Interceptor { name, reason } => {
                let mut s = quoted("interceptor '", name.as_str(), "' failed: ");
                s.append(reason.as_str());
                s
            },
        }
    }
}

fn quoted(before: &str, name: &str, after: &str) -> (s: String)
    ensures
        s@ == before@ + name@ + after@,
{
    let mut s = before.to_owned();
    s.append(name);
    s.append(after);
    s
}

/// What can never work: a plugin for another API, and one whose name cannot be used or
/// is taken. Everything else may work another time.
pub proof fn some_problems_are_permanent(p: Problem)
    ensures
        p.permanent() <==> match p {
            Problem::IncompatibleApi(_, _, _) => true,
            Problem::InvalidName(_) => true,
            Problem::DuplicateName(_) => true,
            _ => false,
        },
{
}

} // verus!
