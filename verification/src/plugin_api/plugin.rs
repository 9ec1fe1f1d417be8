//! The plugin trait, its lifecycle states and its settings.

use crate::plugin_api::error::{Error, Problem, Result};
use crate::plugin_api::metadata::{Declaration, PluginMetadata};
use crate::plugin_api::names::NameMap;
use vstd::prelude::*;

verus! {

/// Configuration handed to a plugin when it loads.
///
/// A flat map from strings to strings: the host cannot know what settings a
/// third-party plugin needs.
pub struct PluginContext {
    settings: NameMap<String>,
}

impl View for PluginContext {
    type V = Map<Seq<char>, Seq<char>>;

    closed spec fn view(&self) -> Map<Seq<char>, Seq<char>> {
        self.settings@.map_values(|value: String| value@)
    }
}

impl PluginContext {
    #[verifier::type_invariant]
    spec fn ordered(self) -> bool {
        self.settings.wf()
    }

    /// The keys, in order.
    pub closed spec fn order(&self) -> Seq<Seq<char>> {
        self.settings.names()
    }

    /// Creates an empty context.
    pub fn new() -> (c: PluginContext)
        ensures
            c@ == Map::<Seq<char>, Seq<char>>::empty(),
    {
        let c = PluginContext { settings: NameMap::new() };
        assert(c@ =~= Map::<Seq<char>, Seq<char>>::empty());
        c
    }

    /// Adds a setting, in place of one under the same key.
    pub fn with_setting(self, key: &str, value: &str) -> (c: PluginContext)
        ensures
            c@ == self@.insert(key@, value@),
    {
        proof {
            use_type_invariant(&self);
        }
        let ghost before = self@;
        let mut settings = self.settings;
        settings.insert(key.to_owned(), value.to_owned());
        let c = PluginContext { settings };
        assert(c@ =~= before.insert(key@, value@));
        c
    }

    /// Returns a setting, if present.
    pub fn get(&self, key: &str) -> (r: Option<&str>)
        ensures
            match r {
                Some(value) => self@.contains_key(key@) && self@[key@] == value@,
                None => !self@.contains_key(key@),
            },
    {
        proof {
            use_type_invariant(self);
        }
        match self.settings.find(key) {
            Ok(i) => Some(self.settings.value_at(i).as_str()),
            Err(_) => None,
        }
    }

    /// Returns a setting as `read` understands it, which gives the reason where
    /// it does not.
    ///
    /// A setting that is absent or malformed is an [`Error::Configuration`]: a
    /// plugin that silently accepted a malformed setting would be far harder to
    /// diagnose than one that refused to load.
    pub fn parse<T, F: Fn(&str) -> std::result::Result<T, String>>(&self, key: &str, read: F) -> (r:
        Result<T>)
        requires
            forall|raw: &str| self@.contains_key(key@) && raw@ == self@[key@] ==> call_requires(
                read,
                (raw,),
            ),
        ensures
            !self@.contains_key(key@) ==> (r matches Err(e) && e@ == Problem::Configuration(
                key@,
                "the setting is not present"@,
            )),
            self@.contains_key(key@) ==> exists|raw: &str, o: std::result::Result<T, String>|
                {
                    &&& raw@ == self@[key@]
                    &&& #[trigger] call_ensures(read, (raw,), o)
                    &&& match o {
                        Ok(v) => r == Ok::<T, Error>(v),
                        Err(reason) => r matches Err(e) && e@ == Problem::Configuration(
                            key@,
                            reason@,
                        ),
                    }
                },
    {
        match self.get(key) {
            None => Err(
                Error::Configuration {
                    key: key.to_owned(),
                    reason: "the setting is not present".to_owned(),
                },
            ),
            Some(raw) => {
                let o = read(raw);
                assert(call_ensures(read, (raw,), o));
                match o {
                    Ok(v) => Ok(v),
                    Err(reason) => Err(Error::Configuration { key: key.to_owned(), reason }),
                }
            },
        }
    }

    /// Returns how many settings are present.
    pub fn len(&self) -> (n: usize)
        ensures
            n == self@.len(),
            self@.dom().finite(),
    {
        proof {
            use_type_invariant(self);
            crate::plugin_api::names::paired_len(self.settings.names(), self.settings.values());
            assert(self@.dom() =~= self.settings@.dom());
        }
        self.settings.len()
    }

    /// Returns `true` if no setting is present.
    pub fn is_empty(&self) -> (r: bool)
        ensures
            r == (self@ == Map::<Seq<char>, Seq<char>>::empty()),
    {
        let n = self.len();
        proof {
            if n == 0 {
                assert(self@.dom() =~= Set::<Seq<char>>::empty());
                assert(self@ =~= Map::<Seq<char>, Seq<char>>::empty());
            }
        }
        n == 0
    }

    /// Returns every key, in order.
    pub fn keys(&self) -> (keys: Vec<&str>)
        ensures
            keys@.len() == self@.len(),
            crate::plugin_api::names::ascending(keys@.map_values(|k: &str| k@)),
            forall|k: Seq<char>|
                keys@.map_values(|k: &str| k@).contains(k) == #[trigger] self@.contains_key(k),
    {
        proof {
            use_type_invariant(self);
        }
        let mut keys: Vec<&str> = Vec::new();
        let mut i: usize = 0;
        while i < self.settings.len()
            invariant
                i <= self.settings.names().len(),
                keys@.map_values(|k: &str| k@) =~= self.settings.names().take(i as int),
            decreases self.settings.names().len() - i,
        {
            let ghost had = keys@;
            keys.push(self.settings.name_at(i));
            i += 1;
            assert(self.settings.names().take(i as int) =~= self.settings.names().take(
                i as int - 1,
            ).push(self.settings.names()[i as int - 1]));
            assert(keys@.map_values(|k: &str| k@) =~= had.map_values(|k: &str| k@).push(
                keys@.last()@,
            ));
        }
        proof {
            let texts = keys@.map_values(|k: &str| k@);
            assert(texts =~= self.settings.names());
            assert(texts.len() == keys@.len());
            crate::plugin_api::names::paired_len(self.settings.names(), self.settings.values());
            assert(self@.dom() =~= self.settings@.dom());
        }
        keys
    }
}

impl Default for PluginContext {
    fn default() -> (c: PluginContext)
        ensures
            c@ == Map::<Seq<char>, Seq<char>>::empty(),
    {
        PluginContext::new()
    }
}

impl Clone for PluginContext {
    fn clone(&self) -> (c: PluginContext)
        ensures
            c@ == self@,
    {
        proof {
            use_type_invariant(self);
        }
        let mut c = PluginContext::new();
        let mut i: usize = 0;
        let ghost names = self.settings.names();
        let ghost values = self.settings.values();
        while i < self.settings.len()
            invariant
                i <= names.len(),
                self.settings.wf(),
                names == self.settings.names(),
                values == self.settings.values(),
                forall|k: Seq<char>| #[trigger]
                    c@.contains_key(k) == names.take(i as int).contains(k),
                forall|j: int| 0 <= j < i ==> c@[#[trigger] names[j]] == values[j]@,
            decreases names.len() - i,
        {
            let ghost had = c@;
            c = c.with_setting(self.settings.name_at(i), self.settings.value_at(i).as_str());
            proof {
                crate::plugin_api::names::ascending_names_are_distinct(names);
                assert forall|k: Seq<char>| #[trigger]
                    c@.contains_key(k) == names.take(i as int + 1).contains(k) by {
                    assert(names.take(i as int + 1) =~= names.take(i as int).push(
                        names[i as int],
                    ));
                    let shorter = names.take(i as int);
                    if shorter.contains(k) {
                        let j = shorter.index_of(k);
                        assert(shorter.push(names[i as int])[j] == k);
                    }
                    assert(shorter.push(names[i as int])[i as int] == names[i as int]);
                }
            }
            i += 1;
        }
        proof {
            assert(names.take(i as int) =~= names);
            assert forall|k: Seq<char>| c@.contains_key(k) implies c@[k] == self@[k] by {
                let j = names.index_of(k);
                crate::plugin_api::names::paired_at(names, values, j);
                assert(names[j] == k);
            }
            assert(c@ =~= self@);
        }
        c
    }
}

/// Where a plugin is in its lifecycle.
#[derive(Debug, Clone, Copy, PartialEq, Eq, Hash, Structural)]
#[non_exhaustive]
pub enum PluginState {
    /// Registered but not yet loaded.
    Registered,
    /// Loaded and active.
    Active,
    /// Unloaded; will receive no further calls.
    Unloaded,
    /// Loading failed. The plugin is inert and will not be called.
    Failed,
}

impl PluginState {
    /// The state in words.
    pub open spec fn text(self) -> Seq<char> {
        match self {
            PluginState::Registered => "registered"@,
            PluginState::Active => "active"@,
            PluginState::Unloaded => "unloaded"@,
            PluginState::Failed => "failed"@,
        }
    }

    /// Returns `true` if the plugin should receive calls.
    pub fn is_active(self) -> (r: bool)
        ensures
            r == (self is Active),
    {
        match self {
            PluginState::Active => true,
            _ => false,
        }
    }

    /// Returns the state in words.
    pub fn to_string(&self) -> (s: String)
        ensures
            s@ == self.text(),
    {
        match self {
            PluginState::Registered => "registered".to_owned(),
            PluginState::Active => "active".to_owned(),
            PluginState::Unloaded => "unloaded".to_owned(),
            PluginState::Failed => "failed".to_owned(),
        }
    }
}

/// A plugin.
///
/// Implementors must be `Send + Sync` because a plugin may be called from any
/// task. What a plugin does is its own affair: `may_load` and `may_unload` say
/// which outcomes the plugin allows itself, so that the registry can say what it
/// makes of each, and `model` stands for what the plugin holds, so that they can
/// say what loading leaves. A plugin that does not say allows itself every outcome.
pub trait Plugin: Send + Sync + 'static {
    /// What the plugin declares about itself.
    open spec fn declared(&self) -> Declaration {
        arbitrary()
    }

    /// A number for what the plugin holds.
    open spec fn model(&self) -> int {
        arbitrary()
    }

    /// Loading with these settings may come out like this, and leave the plugin
    /// with `after` for what it holds.
    open spec fn may_load(
        &self,
        settings: Map<Seq<char>, Seq<char>>,
        o: std::result::Result<(), Problem>,
        after: int,
    ) -> bool {
        true
    }

    /// Unloading may come out like this.
    open spec fn may_unload(&self, o: std::result::Result<(), Problem>) -> bool {
        true
    }

    /// Returns what this plugin declares about itself.
    ///
    /// Called before loading, so it must not depend on any state established
    /// while loading.
    fn metadata(&self) -> (m: PluginMetadata)
        ensures
            m@ == self.declared(),
    ;

    /// Called once when the plugin is loaded.
    ///
    /// An error marks the plugin as failed; it is not called again.
    fn on_load(&mut self, context: &PluginContext) -> (r: Result<()>)
        ensures
            old(self).may_load(
                context@,
                crate::plugin_api::error::outcome(r),
                final(self).model(),
            ),
    ;

    /// Called once when the plugin is unloaded.
    ///
    /// An error is reported but does not prevent unloading: a plugin that cannot
    /// clean up must still be removed.
    fn on_unload(&mut self) -> (r: Result<()>)
        ensures
            old(self).may_unload(crate::plugin_api::error::outcome(r)),
    ;
}

} // verus!
