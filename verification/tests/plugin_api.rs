//! Plugins, interceptors and the registry.

use nexusnet::plugin_api::{
    current_api_version, Action, ApiVersion, Error, Held, Interceptor, InterceptorChain, Link,
    Plugin, PluginContext, PluginMetadata, PluginRegistry, PluginState, Result,
};
use std::sync::atomic::{AtomicU64, AtomicUsize, Ordering};
use std::sync::Arc;

fn number(raw: &str) -> std::result::Result<u32, String> {
    raw.parse::<u32>().map_err(|error| error.to_string())
}

#[test]
fn versions_display_dotted() {
    assert_eq!(ApiVersion::new(2, 7).to_string(), "2.7");
}

#[test]
fn an_identical_version_is_compatible() {
    let host = ApiVersion::new(1, 3);
    assert!(ApiVersion::new(1, 3).is_compatible_with(host));
}

#[test]
fn an_older_minor_is_accepted() {
    let host = ApiVersion::new(1, 5);
    assert!(
        ApiVersion::new(1, 2).is_compatible_with(host),
        "a plugin using only long-standing extension points is safe"
    );
}

#[test]
fn a_newer_minor_is_refused() {
    let host = ApiVersion::new(1, 2);
    assert!(
        !ApiVersion::new(1, 5).is_compatible_with(host),
        "the plugin may use extension points this host does not have"
    );
}

#[test]
fn a_different_major_is_refused_in_both_directions() {
    let host = ApiVersion::new(2, 0);

    assert!(!ApiVersion::new(1, 9).is_compatible_with(host));
    assert!(!ApiVersion::new(3, 0).is_compatible_with(host));
}

#[test]
fn the_current_version_is_supported() {
    assert!(current_api_version().is_supported());
}

#[test]
fn versions_order_major_then_minor() {
    assert!(ApiVersion::new(1, 9) < ApiVersion::new(2, 0));
    assert!(ApiVersion::new(1, 2) < ApiVersion::new(1, 10));
}

#[test]
fn metadata_defaults_to_the_current_api() {
    let metadata = PluginMetadata::new("compressor", "0.1.0");

    assert_eq!(metadata.api_version, current_api_version());
    assert!(metadata.has_valid_name());
    assert!(metadata.description.is_empty());
}

#[test]
fn metadata_builders_apply() {
    let metadata = PluginMetadata::new("audit", "2.1.0")
        .with_description("Logs every frame")
        .with_api_version(ApiVersion::new(1, 0));

    assert_eq!(metadata.description, "Logs every frame");
    assert_eq!(metadata.api_version, ApiVersion::new(1, 0));
    assert_eq!(metadata.to_string(), "audit v2.1.0 (API 1.0)");
}

#[test]
fn an_unusable_name_is_detected() {
    assert!(!PluginMetadata::new("", "1.0").has_valid_name());
    assert!(
        !PluginMetadata::new("   ", "1.0").has_valid_name(),
        "whitespace cannot be looked up or logged usefully"
    );
}

/// Appends a byte outbound and removes it inbound.
struct Tag {
    byte: u8,
    priority: i32,
    name: String,
}

impl Tag {
    fn new(byte: u8, priority: i32) -> Self {
        Self {
            byte,
            priority,
            name: format!("tag-{}", byte as char),
        }
    }
}

impl Interceptor for Tag {
    fn name(&self) -> &str {
        &self.name
    }

    fn priority(&self) -> i32 {
        self.priority
    }

    fn on_outbound(&self, payload: &mut Vec<u8>) -> Result<Action> {
        payload.push(self.byte);
        Ok(Action::Continue)
    }

    fn on_inbound(&self, payload: &mut Vec<u8>) -> Result<Action> {
        assert_eq!(
            payload.pop(),
            Some(self.byte),
            "inbound order must mirror outbound order exactly"
        );
        Ok(Action::Continue)
    }
}

struct Blocker;

impl Interceptor for Blocker {
    fn name(&self) -> &str {
        "blocker"
    }

    fn priority(&self) -> i32 {
        0
    }

    fn on_outbound(&self, _payload: &mut Vec<u8>) -> Result<Action> {
        Ok(Action::Drop)
    }

    fn on_inbound(&self, _payload: &mut Vec<u8>) -> Result<Action> {
        Ok(Action::Continue)
    }
}

struct Failing;

impl Interceptor for Failing {
    fn name(&self) -> &str {
        "failing"
    }

    fn priority(&self) -> i32 {
        0
    }

    fn on_outbound(&self, _payload: &mut Vec<u8>) -> Result<Action> {
        Err(Error::Interceptor {
            name: "failing".to_owned(),
            reason: "deliberate".to_owned(),
        })
    }

    fn on_inbound(&self, _payload: &mut Vec<u8>) -> Result<Action> {
        Ok(Action::Continue)
    }
}

#[test]
fn an_empty_context_reports_nothing() {
    let context = PluginContext::new();

    assert!(context.is_empty());
    assert_eq!(context.len(), 0);
    assert!(context.get("absent").is_none());
}

#[test]
fn settings_are_retrievable() {
    let context = PluginContext::new()
        .with_setting("level", "9")
        .with_setting("mode", "fast");

    assert_eq!(context.get("level"), Some("9"));
    assert_eq!(context.len(), 2);
    assert_eq!(context.keys(), vec!["level", "mode"], "keys are ordered");
}

#[test]
fn settings_parse_to_typed_values() {
    let context = PluginContext::new().with_setting("level", "9");

    assert_eq!(context.parse("level", number).expect("parses"), 9);
}

#[test]
fn a_missing_setting_is_an_error() {
    let context = PluginContext::new();
    let error = context.parse("level", number).expect_err("absent");

    assert!(matches!(error, Error::Configuration { .. }));
}

#[test]
fn a_malformed_setting_is_an_error() {
    let context = PluginContext::new().with_setting("level", "not-a-number");
    let error = context.parse("level", number).expect_err("malformed");

    assert!(
        matches!(error, Error::Configuration { .. }),
        "silently defaulting would be far harder to diagnose"
    );
}

#[test]
fn an_empty_chain_passes_payloads_through() {
    let chain = InterceptorChain::new();
    let mut payload = b"unchanged".to_vec();

    assert!(chain
        .outbound(&mut payload)
        .expect("succeeds")
        .is_continue());
    assert_eq!(payload, b"unchanged");
    assert!(chain.is_empty());
}

#[test]
fn interceptors_run_in_priority_order() {
    let mut chain = InterceptorChain::new();
    // Added out of order deliberately.
    chain.add(Box::new(Tag::new(b'c', 30)));
    chain.add(Box::new(Tag::new(b'a', 10)));
    chain.add(Box::new(Tag::new(b'b', 20)));

    assert_eq!(chain.names(), vec!["tag-a", "tag-b", "tag-c"]);

    let mut payload = Vec::new();
    chain.outbound(&mut payload).expect("succeeds");
    assert_eq!(payload, b"abc");
}

#[test]
fn inbound_runs_in_reverse_so_transforms_unwind() {
    let mut chain = InterceptorChain::new();
    chain.add(Box::new(Tag::new(b'a', 10)));
    chain.add(Box::new(Tag::new(b'b', 20)));
    chain.add(Box::new(Tag::new(b'c', 30)));

    let mut payload = Vec::new();
    chain.outbound(&mut payload).expect("succeeds");
    assert_eq!(payload, b"abc");

    // Each Tag asserts it sees its own byte; reverse order is what makes
    // that hold. Getting this backwards is the classic middleware bug.
    chain.inbound(&mut payload).expect("succeeds");
    assert!(payload.is_empty());
}

#[test]
fn ties_preserve_insertion_order() {
    let mut chain = InterceptorChain::new();
    chain.add(Box::new(Tag::new(b'x', 5)));
    chain.add(Box::new(Tag::new(b'y', 5)));

    assert_eq!(chain.names(), vec!["tag-x", "tag-y"]);
}

#[test]
fn dropping_stops_the_chain() {
    let mut chain = InterceptorChain::new();
    chain.add(Box::new(Blocker));
    chain.add(Box::new(Tag::new(b'z', 10)));

    let mut payload = Vec::new();
    let action = chain.outbound(&mut payload).expect("succeeds");

    assert_eq!(action, Action::Drop);
    assert!(
        payload.is_empty(),
        "an interceptor after the drop must not have run"
    );
}

#[test]
fn an_error_names_the_interceptor_responsible() {
    let mut chain = InterceptorChain::new();
    chain.add(Box::new(Failing));

    let mut payload = Vec::new();
    let error = chain.outbound(&mut payload).expect_err("fails");

    assert!(
        error.to_string().contains("failing"),
        "the operator needs to know which plugin broke: {error:?}"
    );
}

#[test]
fn a_chain_can_be_cleared() {
    let mut chain = InterceptorChain::new();
    chain.add(Box::new(Tag::new(b'a', 0)));
    assert_eq!(chain.len(), 1);

    chain.clear();
    assert!(chain.is_empty());
}

#[test]
fn states_classify_correctly() {
    assert!(PluginState::Active.is_active());
    assert!(!PluginState::Failed.is_active());
    assert!(!PluginState::Unloaded.is_active());
    assert_eq!(PluginState::Registered.to_string(), "registered");
}

#[test]
fn actions_classify_correctly() {
    assert!(Action::Continue.is_continue());
    assert!(!Action::Drop.is_continue());
}

/// A plugin that records its lifecycle transitions.
struct Recorder {
    name: String,
    loads: Arc<AtomicUsize>,
    unloads: Arc<AtomicUsize>,
    fail_on_load: bool,
    api_version: ApiVersion,
}

impl Recorder {
    fn new(name: &str, loads: Arc<AtomicUsize>, unloads: Arc<AtomicUsize>) -> Self {
        Self {
            name: name.to_owned(),
            loads,
            unloads,
            fail_on_load: false,
            api_version: current_api_version(),
        }
    }

    fn failing(mut self) -> Self {
        self.fail_on_load = true;
        self
    }

    fn targeting(mut self, api_version: ApiVersion) -> Self {
        self.api_version = api_version;
        self
    }
}

impl Plugin for Recorder {
    fn metadata(&self) -> PluginMetadata {
        PluginMetadata::new(&self.name, "1.0.0").with_api_version(self.api_version)
    }

    fn on_load(&mut self, context: &PluginContext) -> Result<()> {
        if self.fail_on_load {
            return Err(Error::Configuration {
                key: "mode".to_owned(),
                reason: "deliberately unusable".to_owned(),
            });
        }

        // Prove the context reaches the plugin.
        if let Some(value) = context.get("greeting") {
            assert_eq!(value, "hello");
        }

        self.loads.fetch_add(1, Ordering::SeqCst);
        Ok(())
    }

    fn on_unload(&mut self) -> Result<()> {
        self.unloads.fetch_add(1, Ordering::SeqCst);
        Ok(())
    }
}

#[test]
fn a_plugin_moves_through_its_whole_lifecycle() {
    let loads = Arc::new(AtomicUsize::new(0));
    let unloads = Arc::new(AtomicUsize::new(0));

    let mut registry = PluginRegistry::new();
    registry
        .register(Box::new(Recorder::new(
            "audit",
            Arc::clone(&loads),
            Arc::clone(&unloads),
        )))
        .expect("registers");

    assert_eq!(registry.state("audit"), Some(PluginState::Registered));
    assert_eq!(loads.load(Ordering::SeqCst), 0, "registering must not load");

    let context = PluginContext::new().with_setting("greeting", "hello");
    registry.load("audit", &context).expect("loads");

    assert_eq!(registry.state("audit"), Some(PluginState::Active));
    assert_eq!(loads.load(Ordering::SeqCst), 1);
    assert_eq!(registry.stats().active, 1);
    assert!(!registry.stats().has_failures());

    registry.unload("audit").expect("unloads");
    assert_eq!(unloads.load(Ordering::SeqCst), 1);
    assert!(!registry.contains("audit"), "unloading removes the plugin");
}

#[test]
fn one_failing_plugin_does_not_stop_the_others() {
    let loads = Arc::new(AtomicUsize::new(0));
    let unloads = Arc::new(AtomicUsize::new(0));

    let mut registry = PluginRegistry::new();
    for name in ["alpha", "beta"] {
        registry
            .register(Box::new(Recorder::new(
                name,
                Arc::clone(&loads),
                Arc::clone(&unloads),
            )))
            .expect("registers");
    }
    registry
        .register(Box::new(
            Recorder::new("broken", Arc::clone(&loads), Arc::clone(&unloads)).failing(),
        ))
        .expect("registers");

    let failures = registry.load_all(&PluginContext::new());

    assert_eq!(failures.len(), 1, "exactly one plugin should have failed");
    assert!(failures[0].to_string().contains("broken"));

    assert_eq!(
        loads.load(Ordering::SeqCst),
        2,
        "a misconfigured optional plugin must not take down the others"
    );

    let stats = registry.stats();
    assert_eq!(stats.active, 2);
    assert_eq!(stats.failed, 1);
    assert!(stats.has_failures());
    assert_eq!(registry.state("broken"), Some(PluginState::Failed));
}

#[test]
fn an_incompatible_plugin_is_refused_at_registration() {
    let loads = Arc::new(AtomicUsize::new(0));
    let unloads = Arc::new(AtomicUsize::new(0));

    let mut registry = PluginRegistry::with_api_version(ApiVersion::new(1, 2));

    // Built against a newer minor: may use extension points we lack.
    let error = registry
        .register(Box::new(
            Recorder::new("futuristic", Arc::clone(&loads), Arc::clone(&unloads))
                .targeting(ApiVersion::new(1, 9)),
        ))
        .expect_err("must be refused");

    assert!(matches!(error, Error::IncompatibleApi { .. }));
    assert!(error.is_permanent(), "retrying could never help");
    assert!(registry.is_empty(), "a refused plugin must not be retained");

    // Built against an older minor: uses only what has always existed.
    registry
        .register(Box::new(
            Recorder::new("venerable", loads, unloads).targeting(ApiVersion::new(1, 0)),
        ))
        .expect("an older minor is safe");
    assert_eq!(registry.len(), 1);
}

#[test]
fn duplicate_names_are_refused() {
    let loads = Arc::new(AtomicUsize::new(0));
    let unloads = Arc::new(AtomicUsize::new(0));

    let mut registry = PluginRegistry::new();
    registry
        .register(Box::new(Recorder::new(
            "audit",
            Arc::clone(&loads),
            Arc::clone(&unloads),
        )))
        .expect("registers");

    let error = registry
        .register(Box::new(Recorder::new("audit", loads, unloads)))
        .expect_err("the name is taken");

    assert!(matches!(error, Error::DuplicateName { .. }));
    assert_eq!(registry.len(), 1, "the original must survive");
    assert_eq!(registry.stats().rejected, 1);
}

#[test]
fn unloading_everything_reports_per_plugin_results() {
    let loads = Arc::new(AtomicUsize::new(0));
    let unloads = Arc::new(AtomicUsize::new(0));

    let mut registry = PluginRegistry::new();
    for name in ["alpha", "beta", "gamma"] {
        registry
            .register(Box::new(Recorder::new(
                name,
                Arc::clone(&loads),
                Arc::clone(&unloads),
            )))
            .expect("registers");
    }
    registry.load_all(&PluginContext::new());

    let failures = registry.unload_all();

    assert!(failures.is_empty());
    assert_eq!(unloads.load(Ordering::SeqCst), 3);
    assert!(registry.is_empty());
    assert!(registry.stats().is_empty_registry());
}

/// Compresses outbound by trivially escaping, and reverses it inbound.
struct Wrapper {
    marker: u8,
    priority: i32,
    name: String,
}

impl Wrapper {
    fn new(marker: u8, priority: i32) -> Self {
        Self {
            marker,
            priority,
            name: format!("wrapper-{marker}"),
        }
    }
}

impl Interceptor for Wrapper {
    fn name(&self) -> &str {
        &self.name
    }

    fn priority(&self) -> i32 {
        self.priority
    }

    fn on_outbound(&self, payload: &mut Vec<u8>) -> Result<Action> {
        payload.insert(0, self.marker);
        payload.push(self.marker);
        Ok(Action::Continue)
    }

    fn on_inbound(&self, payload: &mut Vec<u8>) -> Result<Action> {
        if payload.first() != Some(&self.marker) || payload.last() != Some(&self.marker) {
            return Err(Error::Interceptor {
                name: self.name.clone(),
                reason: "the payload was not wrapped by this interceptor".to_owned(),
            });
        }

        payload.remove(0);
        payload.pop();
        Ok(Action::Continue)
    }
}

#[test]
fn nested_transforms_unwind_correctly() {
    // The property that matters: outbound and inbound must be exact inverses,
    // which only holds because inbound runs in reverse order.
    let mut chain = InterceptorChain::new();
    chain.add(Box::new(Wrapper::new(1, 10)));
    chain.add(Box::new(Wrapper::new(2, 20)));
    chain.add(Box::new(Wrapper::new(3, 30)));

    let original = b"payload".to_vec();
    let mut payload = original.clone();

    chain.outbound(&mut payload).expect("wraps");
    assert_eq!(
        payload.first(),
        Some(&3),
        "the last interceptor wraps outermost"
    );
    assert!(payload.len() > original.len());

    chain.inbound(&mut payload).expect("unwraps");
    assert_eq!(
        payload, original,
        "a round trip through the chain must be lossless"
    );
}

#[test]
fn a_filtering_interceptor_drops_traffic() {
    struct Firewall;

    impl Interceptor for Firewall {
        fn name(&self) -> &str {
            "firewall"
        }

        fn priority(&self) -> i32 {
            -100
        }

        fn on_outbound(&self, _payload: &mut Vec<u8>) -> Result<Action> {
            Ok(Action::Continue)
        }

        fn on_inbound(&self, payload: &mut Vec<u8>) -> Result<Action> {
            if payload.starts_with(b"BLOCK") {
                return Ok(Action::Drop);
            }
            Ok(Action::Continue)
        }
    }

    let counter = Arc::new(AtomicU64::new(0));

    struct Counting(Arc<AtomicU64>);

    impl Interceptor for Counting {
        fn name(&self) -> &str {
            "counting"
        }

        fn priority(&self) -> i32 {
            -200
        }

        fn on_outbound(&self, _payload: &mut Vec<u8>) -> Result<Action> {
            Ok(Action::Continue)
        }

        fn on_inbound(&self, _payload: &mut Vec<u8>) -> Result<Action> {
            self.0.fetch_add(1, Ordering::SeqCst);
            Ok(Action::Continue)
        }
    }

    let mut chain = InterceptorChain::new();
    chain.add(Box::new(Counting(Arc::clone(&counter))));
    chain.add(Box::new(Firewall));

    let mut allowed = b"ALLOW this".to_vec();
    assert_eq!(chain.inbound(&mut allowed).expect("runs"), Action::Continue);
    assert_eq!(counter.load(Ordering::SeqCst), 1);

    let mut blocked = b"BLOCK this".to_vec();
    assert_eq!(chain.inbound(&mut blocked).expect("runs"), Action::Drop);
    assert_eq!(
        counter.load(Ordering::SeqCst),
        1,
        "an interceptor after the drop must not run"
    );
}


#[test]
fn a_failed_plugin_is_never_called_again() {
    let loads = Arc::new(AtomicUsize::new(0));
    let unloads = Arc::new(AtomicUsize::new(0));
    let mut registry = PluginRegistry::new();
    registry
        .register(Box::new(
            Recorder::new("broken", Arc::clone(&loads), Arc::clone(&unloads)).failing(),
        ))
        .expect("registers");

    let first = registry.load("broken", &PluginContext::new()).expect_err("fails");
    let again = registry.load("broken", &PluginContext::new()).expect_err("still failed");
    assert_eq!(first, again, "the failure is reported once more");
    assert!(registry.load_all(&PluginContext::new()).is_empty());

    registry.unload("broken").expect("removed without being called");
    assert_eq!(unloads.load(Ordering::SeqCst), 0);
    assert!(registry.is_empty());
}

#[test]
fn an_active_plugin_is_not_loaded_again() {
    let loads = Arc::new(AtomicUsize::new(0));
    let unloads = Arc::new(AtomicUsize::new(0));
    let mut registry = PluginRegistry::new();
    registry
        .register(Box::new(Recorder::new("audit", Arc::clone(&loads), Arc::clone(&unloads))))
        .expect("registers");

    registry.load("audit", &PluginContext::new()).expect("loads");
    registry.load("audit", &PluginContext::new()).expect("is loaded already");
    assert!(registry.load_all(&PluginContext::new()).is_empty());
    assert_eq!(loads.load(Ordering::SeqCst), 1, "loading is announced once");
    assert_eq!(registry.state("audit"), Some(PluginState::Active));
}

#[test]
fn unknown_plugins_are_not_found() {
    let mut registry = PluginRegistry::new();
    let missing = Error::NotFound { name: "ghost".to_owned() };
    assert_eq!(registry.load("ghost", &PluginContext::new()), Err(missing.clone()));
    assert_eq!(registry.unload("ghost"), Err(missing));
    assert_eq!(registry.state("ghost"), None);
    assert!(registry.info("ghost").is_none());
}

#[test]
fn plugins_are_listed_by_name() {
    let mut registry = PluginRegistry::new();
    for name in ["gamma", "alpha", "beta"] {
        let counter = Arc::new(AtomicUsize::new(0));
        registry
            .register(Box::new(Recorder::new(name, Arc::clone(&counter), counter)))
            .expect("registers");
    }
    let names: Vec<String> = registry.list().into_iter().map(|i| i.metadata.name).collect();
    assert_eq!(names, ["alpha", "beta", "gamma"]);
    let info = registry.info("beta").expect("registered");
    assert_eq!(info.metadata.to_string(), "beta v1.0.0 (API 1.0)");
    assert_eq!(info.state, PluginState::Registered);
    assert_eq!(registry.api_version(), current_api_version());
}

#[test]
fn listings_show_as_many_of_each_state_as_the_statistics() {
    let mut registry = PluginRegistry::new();
    for name in ["delta", "alpha", "broken", "gamma"] {
        let counter = Arc::new(AtomicUsize::new(0));
        let plugin = Recorder::new(name, Arc::clone(&counter), counter);
        let plugin = if name == "broken" { plugin.failing() } else { plugin };
        registry.register_held(Held { plugin: Box::new(plugin) }).expect("registers");
    }
    assert_eq!(registry.load_all(&PluginContext::new()).len(), 1);
    let counter = Arc::new(AtomicUsize::new(0));
    let late = Recorder::new("late", Arc::clone(&counter), counter);
    registry.register(Box::new(late)).expect("registers");

    let listed = registry.list();
    let shown = |state: PluginState| listed.iter().filter(|info| info.state == state).count();
    assert_eq!(listed.len(), registry.len());
    assert_eq!(shown(PluginState::Active), 3);
    assert_eq!(shown(PluginState::Active), registry.stats().active);
    assert_eq!(shown(PluginState::Failed), 1);
    assert_eq!(shown(PluginState::Failed), registry.stats().failed);
    assert_eq!(shown(PluginState::Registered), 1);
}

#[test]
fn chains_are_sorted_with_ties_in_the_order_of_addition() {
    let mut chain = InterceptorChain::new();
    for (byte, priority) in [(b'c', 30), (b'a', 10), (b'x', 20), (b'b', 10), (b'y', 20)] {
        chain.add_link(Link { interceptor: Box::new(Tag::new(byte, priority)) });
    }
    assert_eq!(chain.names(), ["tag-a", "tag-b", "tag-x", "tag-y", "tag-c"]);
}

#[test]
fn an_unusable_name_is_refused_first() {
    let counter = Arc::new(AtomicUsize::new(0));
    let mut registry = PluginRegistry::new();
    let plugin = Recorder::new("  ", Arc::clone(&counter), counter).targeting(ApiVersion::new(9, 0));
    let error = registry.register(Box::new(plugin)).expect_err("unusable");
    assert_eq!(error, Error::InvalidName { name: "  ".to_owned() });
    assert!(error.is_permanent());
    assert_eq!(registry.stats().rejected, 1);
}

#[test]
fn plugin_errors_read_well() {
    for (error, expected) in [
        (
            Error::IncompatibleApi {
                name: "x".to_owned(),
                required: ApiVersion::new(2, 1),
                provided: ApiVersion::new(1, 0),
            },
            "plugin 'x' targets API 2.1, but this build provides 1.0",
        ),
        (
            Error::DuplicateName { name: "x".to_owned() },
            "a plugin named 'x' is already registered",
        ),
        (
            Error::InvalidName { name: " ".to_owned() },
            "the plugin name ' ' is not usable: it is empty or whitespace",
        ),
        (Error::NotFound { name: "x".to_owned() }, "no plugin named 'x' is registered"),
        (
            Error::LoadFailed { name: "x".to_owned(), reason: "y".to_owned() },
            "plugin 'x' failed to load: y",
        ),
        (
            Error::Configuration { key: "k".to_owned(), reason: "y".to_owned() },
            "setting 'k' is unusable: y",
        ),
        (
            Error::Interceptor { name: "x".to_owned(), reason: "y".to_owned() },
            "interceptor 'x' failed: y",
        ),
    ] {
        assert_eq!(error.to_string(), expected);
    }
    assert!(!Error::NotFound { name: "x".to_owned() }.is_permanent());
}

#[test]
fn a_later_setting_replaces_an_earlier_one() {
    let context = PluginContext::new()
        .with_setting("mode", "slow")
        .with_setting("level", "9")
        .with_setting("mode", "fast");
    assert_eq!(context.get("mode"), Some("fast"));
    assert_eq!(context.len(), 2);
    assert_eq!(context.clone().keys(), ["level", "mode"]);
    assert_eq!(
        PluginContext::default().parse("level", number),
        Err(Error::Configuration {
            key: "level".to_owned(),
            reason: "the setting is not present".to_owned(),
        })
    );
}

#[test]
fn errors_of_a_chain_carry_their_cause() {
    let mut chain = InterceptorChain::new();
    chain.add(Box::new(Failing));
    let error = chain.outbound(&mut Vec::new()).expect_err("fails");
    assert_eq!(
        error.to_string(),
        "interceptor 'failing' failed: interceptor 'failing' failed: deliberate"
    );
}
