//! Plugin identity and API compatibility.
//!
//! A plugin is written against a particular set of extension points. When those
//! change, a plugin built against the old shape misbehaves at runtime. Refusing
//! to load it is the only safe response, and refusing requires knowing which
//! version it was built against: a plugin declares the [`ApiVersion`] it
//! targets, and the host rejects what it cannot honour.

use crate::text;
use vstd::prelude::*;

verus! {

/// A plugin API version, ordered by major, then by minor.
#[derive(Debug, Clone, Copy, PartialEq, Eq, PartialOrd, Ord, Hash, Structural)]
pub struct ApiVersion {
    /// Incremented when an extension point changes incompatibly.
    pub major: u16,
    /// Incremented when an extension point is added.
    pub minor: u16,
}

/// The plugin API version this build provides.
pub fn current_api_version() -> (v: ApiVersion)
    ensures
        v == this_build(),
{
    ApiVersion { major: 1, minor: 0 }
}

/// The plugin API version this build provides.
pub open spec fn this_build() -> ApiVersion {
    ApiVersion { major: 1, minor: 0 }
}

impl ApiVersion {
    /// A plugin that targets this version can run against `host`: the majors are
    /// the same, and the plugin uses no extension point that `host` lacks.
    pub open spec fn runs_on(self, host: ApiVersion) -> bool {
        self.major == host.major && self.minor <= host.minor
    }

    /// The version in writing.
    pub open spec fn text(self) -> Seq<char> {
        text::decimal(self.major as nat) + "."@ + text::decimal(self.minor as nat)
    }

    /// Creates a version.
    pub fn new(major: u16, minor: u16) -> (v: ApiVersion)
        ensures
            v == (ApiVersion { major, minor }),
    {
        ApiVersion { major, minor }
    }

    /// Returns `true` if a plugin targeting this version can run against `host`.
    ///
    /// Majors must match exactly, and the minor of the plugin may not exceed the
    /// minor of the host. A plugin built against a newer minor may use extension
    /// points this host does not have, so it is refused; one built against an
    /// older minor uses only what has always existed.
    pub fn is_compatible_with(self, host: ApiVersion) -> (r: bool)
        ensures
            r == self.runs_on(host),
    {
        self.major == host.major && self.minor <= host.minor
    }

    /// Returns `true` if this version works with the current build.
    pub fn is_supported(self) -> (r: bool)
        ensures
            r == self.runs_on(this_build()),
    {
        self.is_compatible_with(current_api_version())
    }

    /// Returns the version in writing.
    pub fn to_string(&self) -> (s: String)
        ensures
            s@ == self.text(),
    {
        let mut s = String::new();
        text::push_decimal(&mut s, self.major as u128);
        s.append(".");
        text::push_decimal(&mut s, self.minor as u128);
        assert(s@ =~= self.text());
        s
    }
}

/// What a plugin declares about itself.
#[derive(Debug, PartialEq, Eq)]
#[non_exhaustive]
pub struct PluginMetadata {
    /// A unique identifier, used as the registry key.
    pub name: String,
    /// The version of the plugin itself.
    pub version: String,
    /// The plugin API version this plugin was built against.
    pub api_version: ApiVersion,
    /// A one-line description.
    pub description: String,
}

/// What a plugin declares about itself, as a value.
pub struct Declaration {
    /// A unique identifier, used as the registry key.
    pub name: Seq<char>,
    /// The version of the plugin itself.
    pub version: Seq<char>,
    /// The plugin API version this plugin was built against.
    pub api_version: ApiVersion,
    /// A one-line description.
    pub description: Seq<char>,
}

impl Declaration {
    /// The name can be looked up and logged: something is left of it once the
    /// white space around it is gone.
    pub open spec fn has_usable_name(self) -> bool {
        text::trimmed(self.name).len() > 0
    }

    /// The declaration in writing.
    pub open spec fn text(self) -> Seq<char> {
        self.name + " v"@ + self.version + " (API "@ + self.api_version.text() + ")"@
    }
}

impl View for PluginMetadata {
    type V = Declaration;

    open spec fn view(&self) -> Declaration {
        Declaration {
            name: self.name@,
            version: self.version@,
            api_version: self.api_version,
            description: self.description@,
        }
    }
}

impl PluginMetadata {
    /// Creates metadata targeting the current API version.
    pub fn new(name: &str, version: &str) -> (m: PluginMetadata)
        ensures
            m@ == (Declaration {
                name: name@,
                version: version@,
                api_version: this_build(),
                description: Seq::empty(),
            }),
    {
        let m = PluginMetadata {
            name: name.to_owned(),
            version: version.to_owned(),
            api_version: current_api_version(),
            description: String::new(),
        };
        assert(m@.description =~= Seq::<char>::empty());
        m
    }

    /// Sets the description.
    pub fn with_description(self, description: &str) -> (m: PluginMetadata)
        ensures
            m@ == (Declaration { description: description@, ..self@ }),
    {
        PluginMetadata {
            name: self.name,
            version: self.version,
            api_version: self.api_version,
            description: description.to_owned(),
        }
    }

    /// Sets the API version this plugin targets.
    ///
    /// Only useful for a plugin that deliberately targets an older API than the
    /// one it is compiled against.
    pub fn with_api_version(self, api_version: ApiVersion) -> (m: PluginMetadata)
        ensures
            m@ == (Declaration { api_version, ..self@ }),
    {
        PluginMetadata {
            name: self.name,
            version: self.version,
            api_version,
            description: self.description,
        }
    }

    /// Returns `true` if the name is usable as a registry key.
    ///
    /// Empty or whitespace-only names are rejected: they cannot be looked up or
    /// meaningfully reported in a log.
    pub fn has_valid_name(&self) -> (r: bool)
        ensures
            r == self@.has_usable_name(),
    {
        let bare = text::chars_of(text::trim(self.name.as_str()).as_str());
        bare.len() > 0
    }

    /// Returns the metadata in writing.
    pub fn to_string(&self) -> (s: String)
        ensures
            s@ == self@.text(),
    {
        let mut s = self.name.as_str().to_owned();
        s.append(" v");
        s.append(self.version.as_str());
        s.append(" (API ");
        s.append(self.api_version.to_string().as_str());
        s.append(")");
        s
    }
}

impl Clone for PluginMetadata {
    fn clone(&self) -> (m: PluginMetadata)
        ensures
            m@ == self@,
    {
        PluginMetadata {
            name: self.name.as_str().to_owned(),
            version: self.version.as_str().to_owned(),
            api_version: self.api_version,
            description: self.description.as_str().to_owned(),
        }
    }
}

/// A plugin that runs on a host runs on every later minor of that host, and a
/// host runs every plugin that was built against it.
pub proof fn additions_are_compatible(plugin: ApiVersion, host: ApiVersion, later: ApiVersion)
    requires
        plugin.runs_on(host),
        host.runs_on(later),
    ensures
        plugin.runs_on(later),
        host.runs_on(host),
{
}

/// Two versions run on each other only if they are the same.
pub proof fn only_equal_versions_run_both_ways(a: ApiVersion, b: ApiVersion)
    ensures
        a.runs_on(b) && b.runs_on(a) <==> a == b,
{
}

/// A plugin runs on hosts of its own major version from its own minor version on, and
/// on no other host.
pub proof fn plugins_run_on_later_minors(plugin: ApiVersion, host: ApiVersion, later_by: nat)
    ensures
        host.major == plugin.major && host.minor == plugin.minor + later_by ==> plugin.runs_on(
            host,
        ),
        host.major == plugin.major && host.minor < plugin.minor ==> !plugin.runs_on(host),
        host.major != plugin.major ==> !plugin.runs_on(host),
{
}

/// A name is usable where there is more to it than white space.
pub proof fn usable_names_can_be_seen(d: Declaration)
    ensures
        d.has_usable_name() <==> exists|i: int|
            0 <= i < d.name.len() && !text::is_space(#[trigger] d.name[i]),
{
    text::trimming_takes_the_white_space_off(d.name);
    let (a, b) = choose|a: int, b: int|
        {
            &&& 0 <= a <= b <= d.name.len()
            &&& #[trigger] d.name.subrange(a, b) == text::trimmed(d.name)
            &&& forall|i: int|
                0 <= i < a || b <= i < d.name.len() ==> text::is_space(#[trigger] d.name[i])
        };
    assert(text::trimmed(d.name).len() == b - a);
    if b > a {
        assert(text::trimmed(d.name)[0] == d.name[a]);
    }
}

/// This build runs the plugins that were made for version 1.0 of the API, and no
/// others.
pub proof fn this_build_runs_version_one(plugin: ApiVersion)
    ensures
        plugin.runs_on(this_build()) <==> plugin.major == 1 && plugin.minor == 0,
{
}

} // verus!
