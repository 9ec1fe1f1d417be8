//! Plugin registration and lifecycle management.
//!
//! The registry takes plugins as ordinary values, compiled into the program. It
//! does not load shared libraries: the version check here catches a mismatch in
//! the API, but nothing could catch a mismatch in the ABI.

use crate::plugin_api::error;
use crate::plugin_api::error::{Error, Problem, Result};
use crate::plugin_api::metadata::current_api_version;
use crate::plugin_api::metadata;
use crate::plugin_api::metadata::{ApiVersion, Declaration, PluginMetadata};
use crate::plugin_api::names;
use crate::plugin_api::names::NameMap;
use crate::plugin_api::plugin::{Plugin, PluginContext, PluginState};
use vstd::prelude::*;

verus! {

/// A plugin that a registry holds.
pub struct Held {
    /// The plugin.
    pub plugin: Box<dyn Plugin>,
}

impl Held {
    /// What the plugin declares about itself.
    pub open spec fn declared(self) -> Declaration {
        self.plugin.declared()
    }
}

/// A registered plugin and its current state.
pub struct Entry {
    held: Held,
    metadata: PluginMetadata,
    state: PluginState,
    failure: Option<String>,
}

impl Entry {
    fn new(held: Held, metadata: PluginMetadata) -> (e: Entry)
        ensures
            e.held() == held,
            e.declaration() == metadata@,
            e.stage() is Registered,
            e.failure() is None,
    {
        Entry { held, metadata, state: PluginState::Registered, failure: None }
    }

    /// The plugin itself.
    pub closed spec fn held(self) -> Held {
        self.held
    }

    /// What the plugin declared when it was registered.
    pub closed spec fn declaration(self) -> Declaration {
        self.metadata@
    }

    /// Where the plugin is in its lifecycle.
    pub closed spec fn stage(self) -> PluginState {
        self.state
    }

    /// What the plugin reported when it failed to load.
    pub closed spec fn failure(self) -> Option<Seq<char>> {
        match self.failure {
            Some(reason) => Some(reason@),
            None => None,
        }
    }

    /// A number for what the plugin holds.
    pub open spec fn model(self) -> int {
        self.held().plugin.model()
    }

    /// Loading the plugin with these settings may come out like this, and leave it
    /// with `after` for what it holds.
    pub open spec fn may_load(
        self,
        settings: Map<Seq<char>, Seq<char>>,
        o: std::result::Result<(), Problem>,
        after: int,
    ) -> bool {
        self.held().plugin.may_load(settings, o, after)
    }

    /// Unloading the plugin may come out like this.
    pub open spec fn may_unload(self, o: std::result::Result<(), Problem>) -> bool {
        self.held().plugin.may_unload(o)
    }
}

/// Why a plugin that declares `d` is refused, if it is: its name cannot be used,
/// it targets an API that cannot be honoured, or its name is taken.
pub open spec fn refusal(
    entries: Map<Seq<char>, Entry>,
    api: ApiVersion,
    d: Declaration,
) -> Option<Problem> {
    if !d.has_usable_name() {
        Some(Problem::InvalidName(d.name))
    } else if !d.api_version.runs_on(api) {
        Some(Problem::IncompatibleApi(d.name, d.api_version, api))
    } else if entries.contains_key(d.name) {
        Some(Problem::DuplicateName(d.name))
    } else {
        None
    }
}

/// Registering `held` turns `before` into `after` and comes out like `o`: a plugin
/// that is refused changes nothing but the count of refusals, any other stands
/// under its name from then on, not loaded yet.
pub open spec fn register_step(
    before: PluginRegistry,
    after: PluginRegistry,
    held: Held,
    o: std::result::Result<(), Problem>,
) -> bool {
    &&& after.api() == before.api()
    &&& match refusal(before.entries(), before.api(), held.declared()) {
        Some(p) => {
            &&& o == Err::<(), Problem>(p)
            &&& after.entries() == before.entries()
            &&& after.refusals() == before.refusals() + 1
        },
        None => {
            let name = held.declared().name;
            let added = after.entries()[name];
            &&& o == Ok::<(), Problem>(())
            &&& after.entries() == before.entries().insert(name, added)
            &&& added.held() == held
            &&& added.declaration() == held.declared()
            &&& added.stage() is Registered
            &&& after.refusals() == before.refusals()
        },
    }
}

/// What the registry reports of a plugin whose own code came out like `o`.
pub open spec fn reported(
    name: Seq<char>,
    o: std::result::Result<(), Problem>,
) -> std::result::Result<(), Problem> {
    match o {
        Ok(_) => Ok(()),
        Err(p) => Err(Problem::LoadFailed(name, p.text())),
    }
}

/// Loading turns `before` into `after` and is reported like `v`.
///
/// A plugin is called once. One that has failed stays as it is, and its failure is
/// reported once more; one that is active stays as it is, and that is success. Any
/// other becomes active or failed, as its own code decides, which also decides what
/// the plugin holds from then on.
pub open spec fn load_step(
    before: Entry,
    after: Entry,
    settings: Map<Seq<char>, Seq<char>>,
    name: Seq<char>,
    v: std::result::Result<(), Problem>,
) -> bool {
    if before.stage() is Failed {
        after == before && v == Err::<(), Problem>(
            Problem::LoadFailed(name, before.failure()->0),
        )
    } else if before.stage() is Active {
        after == before && v == Ok::<(), Problem>(())
    } else {
        exists|o: std::result::Result<(), Problem>|
            {
                &&& #[trigger] before.may_load(settings, o, after.model())
                &&& after.declaration() == before.declaration()
                &&& after.stage() == if o is Ok {
                    PluginState::Active
                } else {
                    PluginState::Failed
                }
                &&& after.failure() == match o {
                    Ok(_) => None,
                    Err(p) => Some(p.text()),
                }
                &&& v == reported(name, o)
            }
    }
}

/// Unloading `e` is reported like `v`. A plugin that has failed is not called
/// again; of any other, the error of its own clean-up is reported.
pub open spec fn unload_step(
    e: Entry,
    name: Seq<char>,
    v: std::result::Result<(), Problem>,
) -> bool {
    if e.stage() is Failed {
        v == Ok::<(), Problem>(())
    } else {
        exists|o: std::result::Result<(), Problem>| #[trigger]
            e.may_unload(o) && v == reported(name, o)
    }
}

/// The failures of those plugins, in the order of their names, that were waiting
/// to be loaded before and have failed after.
pub open spec fn load_failures(
    order: Seq<Seq<char>>,
    before: Map<Seq<char>, Entry>,
    after: Map<Seq<char>, Entry>,
) -> Seq<Problem>
    decreases order.len(),
{
    if order.len() == 0 {
        Seq::empty()
    } else {
        let earlier = load_failures(order.drop_last(), before, after);
        let name = order.last();
        if before[name].stage() is Registered && after[name].stage() is Failed {
            earlier.push(Problem::LoadFailed(name, after[name].failure()->0))
        } else {
            earlier
        }
    }
}

/// The errors among the outcomes, in order.
pub open spec fn errors_among(outcomes: Seq<std::result::Result<(), Problem>>) -> Seq<Problem>
    decreases outcomes.len(),
{
    if outcomes.len() == 0 {
        Seq::empty()
    } else {
        let earlier = errors_among(outcomes.drop_last());
        match outcomes.last() {
            Ok(_) => earlier,
            Err(p) => earlier.push(p),
        }
    }
}

/// Errors as values.
pub open spec fn problems(errors: Seq<Error>) -> Seq<Problem> {
    errors.map_values(|e: Error| e@)
}

/// A summary of one registered plugin.
#[derive(Debug, Clone, PartialEq, Eq)]
#[non_exhaustive]
pub struct PluginInfo {
    /// What the plugin declares about itself.
    pub metadata: PluginMetadata,
    /// Where it is in its lifecycle.
    pub state: PluginState,
}

impl PluginInfo {
    /// The summary of `e`.
    pub open spec fn summarises(&self, e: Entry) -> bool {
        self.metadata@ == e.declaration() && self.state == e.stage()
    }
}

/// A snapshot of registry activity.
#[derive(Debug, Clone, Copy, PartialEq, Eq, Structural)]
#[non_exhaustive]
pub struct RegistryStats {
    /// Plugins currently registered.
    pub registered: usize,
    /// Plugins loaded and running.
    pub active: usize,
    /// Plugins that failed to load.
    pub failed: usize,
    /// Registrations refused.
    pub rejected: u64,
}

impl RegistryStats {
    /// Returns `true` if nothing is registered at all.
    pub fn is_empty_registry(&self) -> (r: bool)
        ensures
            r == (self.registered == 0),
    {
        self.registered == 0
    }

    /// Returns `true` if any plugin failed to load.
    pub fn has_failures(&self) -> (r: bool)
        ensures
            r == (self.failed > 0),
    {
        self.failed > 0
    }
}

impl Default for RegistryStats {
    fn default() -> (s: RegistryStats)
        ensures
            s == (RegistryStats { registered: 0, active: 0, failed: 0, rejected: 0 }),
    {
        RegistryStats { registered: 0, active: 0, failed: 0, rejected: 0 }
    }
}

/// The names of the plugins that are in state `s`.
pub open spec fn in_state(entries: Map<Seq<char>, Entry>, s: PluginState) -> Set<Seq<char>> {
    entries.dom().filter(|n: Seq<char>| entries[n].stage() == s)
}

/// Holds and manages plugins.
pub struct PluginRegistry {
    plugins: NameMap<Entry>,
    api_version: ApiVersion,
    rejected: u64,
}

impl PluginRegistry {
    /// The registered plugins, by name.
    pub closed spec fn entries(&self) -> Map<Seq<char>, Entry> {
        self.plugins@
    }

    /// The names of the registered plugins, in order.
    pub closed spec fn order(&self) -> Seq<Seq<char>> {
        self.plugins.names()
    }

    /// The API version this registry provides.
    pub closed spec fn api(&self) -> ApiVersion {
        self.api_version
    }

    /// How many registrations were refused.
    pub closed spec fn refusals(&self) -> u64 {
        self.rejected
    }

    /// Every registered plugin stands under its own name, which is usable,
    /// targets an API that this registry honours, and has a recorded failure
    /// exactly if it has failed.
    pub closed spec fn wf(&self) -> bool {
        &&& self.plugins.wf()
        &&& forall|i: int|
            0 <= i < self.plugins.names().len() ==> entry_fits(
                #[trigger] self.plugins.values()[i],
                self.plugins.names()[i],
                self.api_version,
            )
    }

    /// Creates an empty registry advertising the current API version.
    pub fn new() -> (r: PluginRegistry)
        ensures
            r.wf(),
            r.entries() == Map::<Seq<char>, Entry>::empty(),
            r.api() == metadata::this_build(),
            r.refusals() == 0,
    {
        PluginRegistry::with_api_version(current_api_version())
    }

    /// Creates a registry advertising a specific API version.
    pub fn with_api_version(api_version: ApiVersion) -> (r: PluginRegistry)
        ensures
            r.wf(),
            r.entries() == Map::<Seq<char>, Entry>::empty(),
            r.api() == api_version,
            r.refusals() == 0,
    {
        PluginRegistry { plugins: NameMap::new(), api_version, rejected: 0 }
    }

    /// Returns the API version this registry provides.
    pub fn api_version(&self) -> (v: ApiVersion)
        ensures
            v == self.api(),
    {
        self.api_version
    }

    /// Returns how many plugins are registered.
    pub fn len(&self) -> (n: usize)
        requires
            self.wf(),
        ensures
            n == self.entries().len(),
    {
        proof {
            names::paired_len(self.plugins.names(), self.plugins.values());
        }
        self.plugins.len()
    }

    /// Returns `true` if nothing is registered.
    pub fn is_empty(&self) -> (r: bool)
        requires
            self.wf(),
        ensures
            r == (self.entries() == Map::<Seq<char>, Entry>::empty()),
    {
        proof {
            if self.plugins.names().len() == 0 {
                assert(self.plugins@ =~= Map::<Seq<char>, Entry>::empty());
            } else {
                names::paired_at(self.plugins.names(), self.plugins.values(), 0);
            }
        }
        self.plugins.len() == 0
    }

    /// Registers a plugin without loading it.
    pub fn register(&mut self, plugin: Box<dyn Plugin>) -> (r: Result<()>)
        requires
            old(self).wf(),
            old(self).refusals() < u64::MAX,
        ensures
            final(self).wf(),
            register_step(*old(self), *final(self), (Held { plugin }), error::outcome(r)),
    {
        self.register_held(Held { plugin })
    }

    /// Registers a plugin that is held already, without loading it.
    pub fn register_held(&mut self, held: Held) -> (r: Result<()>)
        requires
            old(self).wf(),
            old(self).refusals() < u64::MAX,
        ensures
            final(self).wf(),
            register_step(*old(self), *final(self), held, error::outcome(r)),
    {
        let metadata = held.plugin.metadata();
        if !metadata.has_valid_name() {
            self.rejected = self.rejected + 1;
            return Err(Error::InvalidName { name: metadata.name });
        }
        if !metadata.api_version.is_compatible_with(self.api_version) {
            self.rejected = self.rejected + 1;
            return Err(
                Error::IncompatibleApi {
                    name: metadata.name,
                    required: metadata.api_version,
                    provided: self.api_version,
                },
            );
        }
        match self.plugins.find(metadata.name.as_str()) {
            Ok(_) => {
                self.rejected = self.rejected + 1;
                Err(Error::DuplicateName { name: metadata.name })
            },
            Err(i) => {
                let name = metadata.name.as_str().to_owned();
                let ghost before = self.plugins;
                let entry = Entry::new(held, metadata);
                self.plugins.insert_at(i, name, entry);
                proof {
                    assert(self.entries()[name@] == entry);
                    assert forall|j: int| 0 <= j < self.plugins.names().len() implies entry_fits(
                        #[trigger] self.plugins.values()[j],
                        self.plugins.names()[j],
                        self.api_version,
                    ) by {
                        if j < i {
                            assert(self.plugins.values()[j] == before.values()[j]);
                        } else if j > i {
                            assert(self.plugins.values()[j] == before.values()[j - 1]);
                        }
                    }
                }
                Ok(())
            },
        }
    }

    /// Loads one registered plugin.
    ///
    /// A plugin that fails to load is marked [`PluginState::Failed`] and never
    /// called again. One that is active already is left as it is.
    pub fn load(&mut self, name: &str, context: &PluginContext) -> (r: Result<()>)
        requires
            old(self).wf(),
        ensures
            final(self).wf(),
            final(self).order() == old(self).order(),
            final(self).api() == old(self).api(),
            final(self).refusals() == old(self).refusals(),
            if old(self).entries().contains_key(name@) {
                let after = final(self).entries()[name@];
                &&& final(self).entries() == old(self).entries().insert(name@, after)
                &&& load_step(old(self).entries()[name@], after, context@, name@, error::outcome(r))
            } else {
                &&& final(self).entries() == old(self).entries()
                &&& error::outcome(r) == Err::<(), Problem>(Problem::NotFound(name@))
            },
    {
        match self.plugins.find(name) {
            Err(_) => Err(Error::NotFound { name: name.to_owned() }),
            Ok(i) => self.load_at(i, context),
        }
    }

    fn load_at(&mut self, i: usize, context: &PluginContext) -> (r: Result<()>)
        requires
            old(self).wf(),
            i < old(self).order().len(),
        ensures
            final(self).wf(),
            final(self).order() == old(self).order(),
            final(self).api() == old(self).api(),
            final(self).refusals() == old(self).refusals(),
            final(self).entries() == old(self).entries().insert(
                old(self).order()[i as int],
                final(self).entries()[old(self).order()[i as int]],
            ),
            load_step(
                old(self).entries()[old(self).order()[i as int]],
                final(self).entries()[old(self).order()[i as int]],
                context@,
                old(self).order()[i as int],
                error::outcome(r),
            ),
    {
        let ghost before = self.plugins;
        let ghost key = before.names()[i as int];
        let name = self.plugins.name_at(i).to_owned();
        proof {
            names::paired_at(before.names(), before.values(), i as int);
            assert(entry_fits(before.values()[i as int], key, self.api_version));
            assert(before@.insert(key, before@[key]) =~= before@);
        }
        match &self.plugins.value_at(i).failure {
            Some(reason) => {
                return Err(Error::LoadFailed { name, reason: reason.as_str().to_owned() });
            },
            None => {},
        }
        if self.plugins.value_at(i).state.is_active() {
            return Ok(());
        }
        let entry = self.plugins.value_at_mut(i);
        let o = entry.held.plugin.on_load(context);
        let ghost own = error::outcome(o);
        let (state, failure, r) = settle_load(name.as_str(), o);
        entry.state = state;
        entry.failure = failure;
        proof {
            let after = self.plugins.values()[i as int];
            assert(before.values()[i as int].may_load(context@, own, after.model()));
            names::paired_update(before.names(), before.values(), i as int, after);
            assert(self.plugins.values() == before.values().update(i as int, after));
            assert forall|j: int| 0 <= j < self.plugins.names().len() implies entry_fits(
                #[trigger] self.plugins.values()[j],
                self.plugins.names()[j],
                self.api_version,
            ) by {
                assert(entry_fits(before.values()[j], before.names()[j], self.api_version));
            }
        }
        r
    }

    /// Loads every plugin that waits to be loaded, returning the failures.
    ///
    /// One plugin failing does not prevent the others from loading: a
    /// misconfigured optional plugin should not take down a process that would
    /// otherwise run fine.
    pub fn load_all(&mut self, context: &PluginContext) -> (failures: Vec<Error>)
        requires
            old(self).wf(),
        ensures
            final(self).wf(),
            final(self).order() == old(self).order(),
            final(self).api() == old(self).api(),
            final(self).refusals() == old(self).refusals(),
            final(self).entries().dom() == old(self).entries().dom(),
            forall|n: Seq<char>| #[trigger]
                old(self).entries().contains_key(n) ==> all_loaded_step(
                    old(self).entries()[n],
                    final(self).entries()[n],
                    context@,
                    n,
                ),
            problems(failures@) == load_failures(
                old(self).order(),
                old(self).entries(),
                final(self).entries(),
            ),
    {
        let ghost start = *self;
        let ghost order = self.order();
        let mut failures: Vec<Error> = Vec::new();
        let mut i: usize = 0;
        proof {
            names::ascending_names_are_distinct(order);
            assert(problems(failures@) =~= Seq::<Problem>::empty());
        }
        while i < self.plugins.len()
            invariant
                self.wf(),
                self.order() == order,
                order == start.order(),
                start == *old(self),
                order.no_duplicates(),
                self.api() == start.api(),
                self.refusals() == start.refusals(),
                self.entries().dom() == start.entries().dom(),
                start.wf(),
                i <= order.len(),
                forall|j: int|
                    0 <= j < i ==> all_loaded_step(
                        start.entries()[#[trigger] order[j]],
                        self.entries()[order[j]],
                        context@,
                        order[j],
                    ),
                forall|j: int|
                    i <= j < order.len() ==> self.entries()[#[trigger] order[j]]
                        == start.entries()[order[j]],
                problems(failures@) == load_failures(
                    order.take(i as int),
                    start.entries(),
                    self.entries(),
                ),
            decreases order.len() - i,
        {
            let ghost here = *self;
            let ghost name = order[i as int];
            let ghost had = failures@;
            proof {
                names::paired_at(self.plugins.names(), self.plugins.values(), i as int);
                assert(order.take(i as int + 1).drop_last() =~= order.take(i as int));
                assert(order.take(i as int + 1).last() == name);
            }
            if self.plugins.value_at(i).state == PluginState::Registered {
                let r = self.load_at(i, context);
                proof {
                    later_entries_do_not_matter(
                        order.take(i as int),
                        start.entries(),
                        here.entries(),
                        self.entries(),
                    );
                    assert(load_step(
                        start.entries()[name],
                        self.entries()[name],
                        context@,
                        name,
                        error::outcome(r),
                    ));
                    assert(all_loaded_step(
                        start.entries()[name],
                        self.entries()[name],
                        context@,
                        name,
                    ));
                    assert forall|j: int| 0 <= j < order.len() && j != i implies self.entries()[
                    #[trigger] order[j]] == here.entries()[order[j]] by {
                        assert(order[j] != name);
                    }
                    assert(self.entries().dom() =~= start.entries().dom());
                }
                match r {
                    Ok(()) => {},
                    Err(e) => {
                        failures.push(e);
                        assert(problems(failures@) =~= problems(had).push(e@));
                    },
                }
            }
            i += 1;
        }
        proof {
            assert(order.take(i as int) =~= order);
            assert forall|n: Seq<char>| #[trigger]
                start.entries().contains_key(n) implies all_loaded_step(
                start.entries()[n],
                self.entries()[n],
                context@,
                n,
            ) by {
                let j = order.index_of(n);
                assert(order.contains(n));
                assert(order[j] == n);
            }
        }
        failures
    }

    /// Unloads and removes a plugin.
    ///
    /// An error from the clean-up of the plugin is returned, but the plugin is
    /// removed regardless: otherwise a failing plugin could never be got rid of.
    pub fn unload(&mut self, name: &str) -> (r: Result<()>)
        requires
            old(self).wf(),
        ensures
            final(self).wf(),
            final(self).api() == old(self).api(),
            final(self).refusals() == old(self).refusals(),
            final(self).entries() == old(self).entries().remove(name@),
            if old(self).entries().contains_key(name@) {
                unload_step(old(self).entries()[name@], name@, error::outcome(r))
            } else {
                error::outcome(r) == Err::<(), Problem>(Problem::NotFound(name@))
            },
    {
        match self.plugins.find(name) {
            Err(_) => {
                assert(self.entries().remove(name@) =~= self.entries());
                Err(Error::NotFound { name: name.to_owned() })
            },
            Ok(i) => self.unload_at(i),
        }
    }

    fn unload_at(&mut self, i: usize) -> (r: Result<()>)
        requires
            old(self).wf(),
            i < old(self).order().len(),
        ensures
            final(self).wf(),
            final(self).order() == old(self).order().remove(i as int),
            final(self).api() == old(self).api(),
            final(self).refusals() == old(self).refusals(),
            final(self).entries() == old(self).entries().remove(old(self).order()[i as int]),
            unload_step(
                old(self).entries()[old(self).order()[i as int]],
                old(self).order()[i as int],
                error::outcome(r),
            ),
    {
        let ghost before = self.plugins;
        let name = self.plugins.name_at(i).to_owned();
        proof {
            names::paired_at(before.names(), before.values(), i as int);
            assert(entry_fits(before.values()[i as int], before.names()[i as int], self.api_version));
        }
        let mut entry = self.plugins.remove_at(i);
        proof {
            assert forall|j: int| 0 <= j < self.plugins.names().len() implies entry_fits(
                #[trigger] self.plugins.values()[j],
                self.plugins.names()[j],
                self.api_version,
            ) by {
                let k = if j < i { j } else { j + 1 };
                assert(entry_fits(before.values()[k], before.names()[k], self.api_version));
            }
        }
        if entry.state == PluginState::Failed {
            return Ok(());
        }
        let o = entry.held.plugin.on_unload();
        assert(before.values()[i as int].may_unload(error::outcome(o)));
        settle_unload(name.as_str(), o)
    }

    /// Unloads every plugin, in the order of their names, returning any errors
    /// raised during clean-up.
    pub fn unload_all(&mut self) -> (failures: Vec<Error>)
        requires
            old(self).wf(),
        ensures
            final(self).wf(),
            final(self).api() == old(self).api(),
            final(self).refusals() == old(self).refusals(),
            final(self).entries() == Map::<Seq<char>, Entry>::empty(),
            exists|outcomes: Seq<std::result::Result<(), Problem>>| #[trigger]
                all_unloaded(old(self).order(), old(self).entries(), outcomes) && problems(
                    failures@,
                ) == errors_among(outcomes),
    {
        let ghost start = *self;
        let ghost order = self.order();
        let ghost mut outcomes: Seq<std::result::Result<(), Problem>> = Seq::empty();
        let mut failures: Vec<Error> = Vec::new();
        proof {
            names::ascending_names_are_distinct(order);
            assert(problems(failures@) =~= Seq::<Problem>::empty());
            assert(order.skip(0) =~= order);
        }
        while self.plugins.len() > 0
            invariant
                self.wf(),
                order == start.order(),
                order.no_duplicates(),
                outcomes.len() <= order.len(),
                self.order() == order.skip(outcomes.len() as int),
                self.api() == start.api(),
                self.refusals() == start.refusals(),
                forall|j: int|
                    outcomes.len() <= j < order.len() ==> self.entries()[#[trigger] order[j]]
                        == start.entries()[order[j]],
                forall|j: int|
                    0 <= j < outcomes.len() ==> unload_step(
                        start.entries()[order[j]],
                        order[j],
                        #[trigger] outcomes[j],
                    ),
                problems(failures@) == errors_among(outcomes),
            decreases self.order().len(),
        {
            let ghost here = *self;
            let ghost k = outcomes.len() as int;
            let ghost had = failures@;
            assert(self.order()[0] == order[k]);
            let r = self.unload_at(0);
            proof {
                assert(order.skip(k).remove(0) =~= order.skip(k + 1));
                assert forall|j: int| k < j < order.len() implies self.entries()[#[trigger] order[j]]
                    == start.entries()[order[j]] by {
                    assert(order[j] != order[k]);
                    assert(here.order()[j - k] == order[j]);
                    names::paired_at(here.plugins.names(), here.plugins.values(), j - k);
                }
                let prior = outcomes;
                outcomes = prior.push(error::outcome(r));
                assert(outcomes.drop_last() =~= prior);
            }
            match r {
                Ok(()) => {},
                Err(e) => {
                    failures.push(e);
                    assert(problems(failures@) =~= problems(had).push(e@));
                },
            }
        }
        proof {
            assert(self.entries() =~= Map::<Seq<char>, Entry>::empty());
            assert(all_unloaded(order, start.entries(), outcomes));
        }
        failures
    }

    /// Returns every plugin, in name order.
    pub fn list(&self) -> (infos: Vec<PluginInfo>)
        requires
            self.wf(),
        ensures
            infos@.len() == self.order().len(),
            forall|i: int|
                0 <= i < infos@.len() ==> (#[trigger] infos@[i]).summarises(
                    self.entries()[self.order()[i]],
                ),
    {
        let mut infos: Vec<PluginInfo> = Vec::new();
        let mut i: usize = 0;
        while i < self.plugins.len()
            invariant
                self.wf(),
                i <= self.order().len(),
                infos@.len() == i,
                forall|j: int|
                    0 <= j < i ==> (#[trigger] infos@[j]).summarises(
                        self.entries()[self.order()[j]],
                    ),
            decreases self.order().len() - i,
        {
            proof {
                names::paired_at(self.plugins.names(), self.plugins.values(), i as int);
            }
            infos.push(self.info_at(i));
            i += 1;
        }
        infos
    }

    /// Returns a snapshot of registry activity.
    pub fn stats(&self) -> (s: RegistryStats)
        requires
            self.wf(),
        ensures
            s.registered == self.entries().len(),
            s.active == in_state(self.entries(), PluginState::Active).len(),
            s.failed == in_state(self.entries(), PluginState::Failed).len(),
            s.rejected == self.refusals(),
    {
        RegistryStats {
            registered: self.len(),
            active: self.count(PluginState::Active),
            failed: self.count(PluginState::Failed),
            rejected: self.rejected,
        }
    }

    fn count(&self, s: PluginState) -> (n: usize)
        requires
            self.wf(),
        ensures
            n == in_state(self.entries(), s).len(),
    {
        let ghost order = self.order();
        let ghost mut seen: Set<Seq<char>> = Set::empty();
        let mut n: usize = 0;
        let mut i: usize = 0;
        proof {
            names::ascending_names_are_distinct(order);
        }
        while i < self.plugins.len()
            invariant
                self.wf(),
                order == self.order(),
                order.no_duplicates(),
                i <= order.len(),
                n <= i,
                seen.finite(),
                n == seen.len(),
                forall|m: Seq<char>| #[trigger]
                    seen.contains(m) <==> order.take(i as int).contains(m)
                        && self.entries()[m].stage() == s,
            decreases order.len() - i,
        {
            let ghost name = order[i as int];
            let ghost before = seen;
            proof {
                names::paired_at(self.plugins.names(), self.plugins.values(), i as int);
                assert(order.take(i as int + 1) =~= order.take(i as int).push(name));
                assert(!order.take(i as int).contains(name)) by {
                    if order.take(i as int).contains(name) {
                        let j = order.take(i as int).index_of(name);
                        assert(order[j] == order[i as int]);
                    }
                }
            }
            if self.plugins.value_at(i).state == s {
                n += 1;
                proof {
                    seen = seen.insert(name);
                }
            }
            proof {
                assert forall|m: Seq<char>| #[trigger]
                    seen.contains(m) <==> order.take(i as int + 1).contains(m)
                        && self.entries()[m].stage() == s by {
                    let shorter = order.take(i as int);
                    if shorter.contains(m) {
                        let j = shorter.index_of(m);
                        assert(shorter.push(name)[j] == m);
                    }
                    assert(shorter.push(name)[i as int] == name);
                    if shorter.push(name).contains(m) && m != name {
                        let j = shorter.push(name).index_of(m);
                        assert(shorter[j] == m);
                    }
                    assert(before.contains(m) <==> shorter.contains(m)
                        && self.entries()[m].stage() == s);
                }
            }
            i += 1;
        }
        assert(order.take(i as int) =~= order);
        assert(seen =~= in_state(self.entries(), s));
        n
    }

    /// Returns `true` if a plugin is registered under this name.
    pub fn contains(&self, name: &str) -> (r: bool)
        requires
            self.wf(),
        ensures
            r == self.entries().contains_key(name@),
    {
        match self.plugins.find(name) {
            Ok(_) => true,
            Err(_) => false,
        }
    }

    /// Returns the state of a plugin.
    pub fn state(&self, name: &str) -> (s: Option<PluginState>)
        requires
            self.wf(),
        ensures
            s == if self.entries().contains_key(name@) {
                Some(self.entries()[name@].stage())
            } else {
                None
            },
    {
        match self.plugins.find(name) {
            Ok(i) => Some(self.plugins.value_at(i).state),
            Err(_) => None,
        }
    }

    /// Returns a summary of one plugin.
    pub fn info(&self, name: &str) -> (r: Option<PluginInfo>)
        requires
            self.wf(),
        ensures
            match r {
                Some(info) => self.entries().contains_key(name@) && info.summarises(
                    self.entries()[name@],
                ),
                None => !self.entries().contains_key(name@),
            },
    {
        match self.plugins.find(name) {
            Ok(i) => Some(self.info_at(i)),
            Err(_) => None,
        }
    }

    fn info_at(&self, i: usize) -> (info: PluginInfo)
        requires
            i < self.plugins.names().len(),
        ensures
            info.summarises(self.plugins.values()[i as int]),
    {
        let entry = self.plugins.value_at(i);
        PluginInfo { metadata: entry.metadata.clone(), state: entry.state }
    }
}

/// The entry can stand under `name` in a registry that provides `api`.
pub closed spec fn entry_fits(e: Entry, name: Seq<char>, api: ApiVersion) -> bool {
    &&& e.declaration().name == name
    &&& e.declaration().has_usable_name()
    &&& e.declaration().api_version.runs_on(api)
    &&& e.stage() !is Unloaded
    &&& (e.stage() is Failed) == (e.failure() is Some)
}

impl Default for PluginRegistry {
    fn default() -> (r: PluginRegistry)
        ensures
            r.wf(),
            r.entries() == Map::<Seq<char>, Entry>::empty(),
            r.api() == metadata::this_build(),
            r.refusals() == 0,
    {
        PluginRegistry::new()
    }
}

/// Loading everything turns `before` into `after`: a plugin that waits to be
/// loaded is loaded, and any other stays as it is.
pub open spec fn all_loaded_step(
    before: Entry,
    after: Entry,
    settings: Map<Seq<char>, Seq<char>>,
    name: Seq<char>,
) -> bool {
    if before.stage() is Registered {
        exists|v: std::result::Result<(), Problem>| #[trigger]
            load_step(before, after, settings, name, v)
    } else {
        after == before
    }
}

/// Unloading everything, in order, is reported like `outcomes`.
pub open spec fn all_unloaded(
    order: Seq<Seq<char>>,
    entries: Map<Seq<char>, Entry>,
    outcomes: Seq<std::result::Result<(), Problem>>,
) -> bool {
    &&& outcomes.len() == order.len()
    &&& forall|i: int|
        0 <= i < order.len() ==> unload_step(entries[order[i]], order[i], #[trigger] outcomes[i])
}

proof fn later_entries_do_not_matter(
    order: Seq<Seq<char>>,
    before: Map<Seq<char>, Entry>,
    a: Map<Seq<char>, Entry>,
    b: Map<Seq<char>, Entry>,
)
    requires
        forall|i: int| 0 <= i < order.len() ==> a[#[trigger] order[i]] == b[order[i]],
    ensures
        load_failures(order, before, a) == load_failures(order, before, b),
    decreases order.len(),
{
    if order.len() > 0 {
        assert forall|i: int| 0 <= i < order.drop_last().len() implies a[
        #[trigger] order.drop_last()[i]] == b[order.drop_last()[i]] by {
            assert(order.drop_last()[i] == order[i]);
        }
        later_entries_do_not_matter(order.drop_last(), before, a, b);
        assert(order.last() == order[order.len() - 1]);
    }
}

/// Decides what is reported of a plugin whose own unloading code came out like
/// `o`.
pub fn settle_unload(name: &str, o: Result<()>) -> (r: Result<()>)
    ensures
        error::outcome(r) == reported(name@, error::outcome(o)),
{
    match o {
        Ok(()) => Ok(()),
        Err(source) => Err(
            Error::LoadFailed { name: name.to_owned(), reason: source.to_string() },
        ),
    }
}

/// The order of a registry lists every registered plugin once, in name order.
pub proof fn order_lists_every_plugin(r: PluginRegistry)
    requires
        r.wf(),
    ensures
        names::ascending(r.order()),
        r.order().to_set() == r.entries().dom(),
        r.order().len() == r.entries().len(),
{
    names::paired_len(r.plugins.names(), r.plugins.values());
}

/// As many of the listed names are in state `s` as registered plugins are.
proof fn states_are_counted_in_order(
    order: Seq<Seq<char>>,
    entries: Map<Seq<char>, Entry>,
    infos: Seq<PluginInfo>,
    s: PluginState,
)
    requires
        order.no_duplicates(),
        infos.len() == order.len(),
        forall|i: int|
            0 <= i < infos.len() ==> (#[trigger] infos[i]).summarises(entries[order[i]]),
    ensures
        order.to_set().filter(|n: Seq<char>| entries[n].stage() == s).finite(),
        order.to_set().filter(|n: Seq<char>| entries[n].stage() == s).len() == infos.filter(
            |i: PluginInfo| i.state == s,
        ).len(),
    decreases order.len(),
{
    let keep = |i: PluginInfo| i.state == s;
    let of_state = |n: Seq<char>| entries[n].stage() == s;
    reveal(Seq::filter);
    if order.len() == 0 {
        assert(order.to_set().filter(of_state) =~= Set::empty());
    } else {
        let shorter = order.drop_last();
        let last = order.last();
        assert forall|i: int| 0 <= i < infos.drop_last().len() implies (
        #[trigger] infos.drop_last()[i]).summarises(entries[shorter[i]]) by {
            assert(infos[i].summarises(entries[order[i]]));
        }
        states_are_counted_in_order(shorter, entries, infos.drop_last(), s);
        assert(infos[infos.len() - 1].summarises(entries[last]));
        assert(!shorter.to_set().contains(last));
        assert(order.to_set() =~= shorter.to_set().insert(last)) by {
            assert forall|n: Seq<char>| #[trigger] order.contains(n) implies n == last
                || shorter.contains(n) by {
                let k = order.index_of(n);
                if k < shorter.len() {
                    assert(shorter[k] == n);
                }
            }
            assert forall|n: Seq<char>| #[trigger] shorter.contains(n) implies order.contains(n) by {
                let k = shorter.index_of(n);
                assert(order[k] == n);
            }
            assert(order[order.len() - 1] == last);
        }
        if entries[last].stage() == s {
            assert(order.to_set().filter(of_state) =~= shorter.to_set().filter(of_state).insert(
                last,
            ));
        } else {
            assert(order.to_set().filter(of_state) =~= shorter.to_set().filter(of_state));
        }
    }
}

/// A listing of a registry, as [`PluginRegistry::list`] gives it, names every
/// registered plugin once, in ascending order, and shows as many plugins in each
/// state as there are in the registry.
pub proof fn listings_are_complete(r: PluginRegistry, infos: Seq<PluginInfo>, s: PluginState)
    requires
        r.wf(),
        infos.len() == r.order().len(),
        forall|i: int|
            0 <= i < infos.len() ==> (#[trigger] infos[i]).summarises(r.entries()[r.order()[i]]),
    ensures
        infos.map_values(|i: PluginInfo| i.metadata@.name) == r.order(),
        names::ascending(r.order()),
        r.order().to_set() == r.entries().dom(),
        infos.len() == r.entries().len(),
        infos.filter(|i: PluginInfo| i.state == s).len() == in_state(r.entries(), s).len(),
{
    order_lists_every_plugin(r);
    names::ascending_names_are_distinct(r.order());
    states_are_counted_in_order(r.order(), r.entries(), infos, s);
    let listed = infos.map_values(|i: PluginInfo| i.metadata@.name);
    assert forall|i: int| 0 <= i < listed.len() implies #[trigger] listed[i] == r.order()[i] by {
        assert(infos[i].summarises(r.entries()[r.order()[i]]));
        assert(r.order().to_set().contains(r.order()[i]));
        registered_plugins_fit(r, r.order()[i]);
    }
    assert(listed =~= r.order());
}

/// Every registered plugin stands under its own name, which is usable, and
/// targets an API that the registry honours.
pub proof fn registered_plugins_fit(r: PluginRegistry, name: Seq<char>)
    requires
        r.wf(),
        r.entries().contains_key(name),
    ensures
        r.entries()[name].declaration().name == name,
        r.entries()[name].declaration().has_usable_name(),
        r.entries()[name].declaration().api_version.runs_on(r.api()),
        r.entries()[name].stage() !is Unloaded,
{
    let i = r.plugins.names().index_of(name);
    assert(r.plugins.names().contains(name));
    names::paired_at(r.plugins.names(), r.plugins.values(), i);
    assert(entry_fits(r.plugins.values()[i], r.plugins.names()[i], r.api_version));
}

/// A plugin that failed to load is never called again: to load it once more
/// leaves it as it is and reports the failure it had, whatever it would do.
pub proof fn failed_plugins_stay_inert(
    before: Entry,
    after: Entry,
    settings: Map<Seq<char>, Seq<char>>,
    name: Seq<char>,
    v: std::result::Result<(), Problem>,
)
    requires
        before.stage() is Failed,
        load_step(before, after, settings, name, v),
    ensures
        after == before,
        v is Err,
        all_loaded_step(before, after, settings, name),
{
}

/// A plugin is loaded once: to load an active one again succeeds and leaves it as
/// it is, whatever its own code would do.
pub proof fn active_plugins_are_not_loaded_again(
    before: Entry,
    after: Entry,
    settings: Map<Seq<char>, Seq<char>>,
    name: Seq<char>,
    v: std::result::Result<(), Problem>,
)
    requires
        before.stage() is Active,
        load_step(before, after, settings, name, v),
    ensures
        after == before,
        v is Ok,
        all_loaded_step(before, after, settings, name),
{
}

/// Decides what becomes of a plugin whose own loading code came out like `o`:
/// its state, what is recorded of a failure, and what is reported.
pub fn settle_load(name: &str, o: Result<()>) -> (r: (PluginState, Option<String>, Result<()>))
    ensures
        match o {
            Ok(_) => r.0 is Active && r.1 is None && r.2 is Ok,
            Err(source) => {
                &&& r.0 is Failed
                &&& r.1 matches Some(reason)
                &&& reason@ == source@.text()
                &&& r.2 matches Err(e)
                &&& e@ == Problem::LoadFailed(name@, source@.text())
            },
        },
{
    match o {
        Ok(()) => (PluginState::Active, None, Ok(())),
        Err(source) => {
            let reason = source.to_string();
            let recorded = reason.as_str().to_owned();
            (
                PluginState::Failed,
                Some(recorded),
                Err(Error::LoadFailed { name: name.to_owned(), reason }),
            )
        },
    }
}

/// Why a plugin is refused: first for a name that is only white space, after that for
/// an API that this host does not provide, and last for a name that is taken. Any
/// other plugin is not refused.
pub proof fn refusals_have_their_reasons(
    entries: Map<Seq<char>, Entry>,
    api: ApiVersion,
    d: Declaration,
)
    ensures
        ({
            let visible = exists|i: int|
                0 <= i < d.name.len() && !crate::text::is_space(#[trigger] d.name[i]);
            let runs = d.api_version.major == api.major && d.api_version.minor <= api.minor;
            let taken = entries.contains_key(d.name);
            let why = refusal(entries, api, d);
            &&& why is None <==> visible && runs && !taken
            &&& !visible ==> why == Some(Problem::InvalidName(d.name))
            &&& visible && !runs ==> why == Some(
                Problem::IncompatibleApi(d.name, d.api_version, api),
            )
            &&& visible && runs && taken ==> why == Some(Problem::DuplicateName(d.name))
            &&& why matches Some(p) ==> p.permanent()
        }),
{
    metadata::usable_names_can_be_seen(d);
}

/// What a registration changes: a plugin that is refused leaves every plugin as it was
/// and is counted; any other is added under its name, waiting to be loaded, and the
/// others stay as they were.
pub proof fn registrations_add_one_plugin(
    before: PluginRegistry,
    after: PluginRegistry,
    held: Held,
    o: std::result::Result<(), Problem>,
    other: Seq<char>,
)
    requires
        register_step(before, after, held, o),
    ensures
        o is Ok ==> after.entries().contains_key(held.declared().name) && after.entries()[
            held.declared().name
        ].held() == held && after.entries()[held.declared().name].stage() is Registered
            && !before.entries().contains_key(held.declared().name) && after.refusals()
            == before.refusals(),
        o is Err ==> after.entries() == before.entries() && after.refusals() == before.refusals()
            + 1,
        other != held.declared().name ==> after.entries().contains_key(other)
            == before.entries().contains_key(other) && (before.entries().contains_key(other)
            ==> after.entries()[other] == before.entries()[other]),
        after.api() == before.api(),
{
}

/// Loading a plugin that waits for it ends in one of two ways: it is active, without a
/// failure, and that is success; or it has failed, what it said is kept, and the report
/// says the same under its name. What it declares does not change.
pub proof fn loading_ends_in_one_of_two_ways(
    before: Entry,
    after: Entry,
    settings: Map<Seq<char>, Seq<char>>,
    name: Seq<char>,
    v: std::result::Result<(), Problem>,
)
    requires
        load_step(before, after, settings, name, v),
        !(before.stage() is Failed),
        !(before.stage() is Active),
    ensures
        after.stage() is Active || after.stage() is Failed,
        v is Ok <==> after.stage() is Active,
        after.stage() is Active ==> after.failure() is None,
        after.stage() is Failed ==> (after.failure() matches Some(reason) && v == Err::<
            (),
            Problem,
        >(Problem::LoadFailed(name, reason))),
        after.declaration() == before.declaration(),
{
}

/// Unloading reports what a plugin's own clean-up says, under its name, and nothing of
/// one that has failed.
pub proof fn unloading_reports_the_clean_up(
    e: Entry,
    name: Seq<char>,
    v: std::result::Result<(), Problem>,
)
    requires
        unload_step(e, name, v),
    ensures
        e.stage() is Failed ==> v is Ok,
        v matches Err(p) ==> (p matches Problem::LoadFailed(n, _) && n == name),
        !(e.stage() is Failed) && v is Ok ==> exists|o: std::result::Result<(), Problem>| #[trigger]
            e.may_unload(o) && o is Ok,
        v matches Err(Problem::LoadFailed(_, reason)) ==> exists|why: Problem| #[trigger]
            e.may_unload(Err(why)) && reason == why.text(),
{
    if !(e.stage() is Failed) {
        let o = choose|o: std::result::Result<(), Problem>| #[trigger]
            e.may_unload(o) && v == reported(name, o);
        if let Err(why) = o {
            assert(e.may_unload(Err(why)));
        }
    }
}

/// Loading everything reports exactly the plugins that were waiting and failed, each
/// once, in the order of their names and with what they said.
pub proof fn load_failures_are_all_reported(
    order: Seq<Seq<char>>,
    before: Map<Seq<char>, Entry>,
    after: Map<Seq<char>, Entry>,
)
    ensures
        load_failures(order, before, after) == order.filter(
            |n: Seq<char>| before[n].stage() is Registered && after[n].stage() is Failed,
        ).map_values(|n: Seq<char>| Problem::LoadFailed(n, after[n].failure()->0)),
    decreases order.len(),
{
    let failed = |n: Seq<char>| before[n].stage() is Registered && after[n].stage() is Failed;
    let report = |n: Seq<char>| Problem::LoadFailed(n, after[n].failure()->0);
    reveal(Seq::filter);
    if order.len() > 0 {
        let shorter = order.drop_last();
        load_failures_are_all_reported(shorter, before, after);
        if failed(order.last()) {
            assert(order.filter(failed).map_values(report) =~= shorter.filter(failed).map_values(
                report,
            ).push(report(order.last())));
        }
    } else {
        assert(order.filter(failed).map_values(report) =~= Seq::<Problem>::empty());
    }
}

/// The errors among outcomes are those that are errors, in order.
pub proof fn errors_are_picked_out(outcomes: Seq<std::result::Result<(), Problem>>)
    ensures
        errors_among(outcomes) == outcomes.filter(
            |o: std::result::Result<(), Problem>| o is Err,
        ).map_values(|o: std::result::Result<(), Problem>| o->Err_0),
    decreases outcomes.len(),
{
    let bad = |o: std::result::Result<(), Problem>| o is Err;
    let why = |o: std::result::Result<(), Problem>| o->Err_0;
    reveal(Seq::filter);
    if outcomes.len() > 0 {
        let shorter = outcomes.drop_last();
        errors_are_picked_out(shorter);
        if bad(outcomes.last()) {
            assert(outcomes.filter(bad).map_values(why) =~= shorter.filter(bad).map_values(
                why,
            ).push(why(outcomes.last())));
        }
    } else {
        assert(outcomes.filter(bad).map_values(why) =~= Seq::<Problem>::empty());
    }
}

} // verus!
