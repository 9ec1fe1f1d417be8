//! The engine: configuration, lifecycle, errors and the command line.

use nexusnet::cli::{help_lines, info_lines, resolve, Command};
use nexusnet::engine::config::{env_key, parse_bool, parse_worker_threads};
use nexusnet::engine::{
    version_string, Engine, EngineConfig, EngineState, EnvVars, Error, LogFormat, LogLevel, NAME,
    VERSION, VERSION_MAJOR, VERSION_MINOR, VERSION_PATCH,
};
use nexusnet::time::Duration;
use std::sync::{Arc, Mutex};

#[test]
fn default_config_is_valid() {
    let config = EngineConfig::default();
    assert!(config.validate().is_ok());
    assert_eq!(config.name, "nexusnet");
    assert_eq!(config.log_level, LogLevel::Info);
    assert_eq!(config.log_format, LogFormat::Full);
    assert_eq!(config.worker_threads, None);
    assert_eq!(config.shutdown_timeout, Duration::from_secs(30));
    assert!(!config.install_logging);
    assert!(!config.metrics_enabled);
}

#[test]
fn builder_overrides_fields() {
    let config = EngineConfig::builder()
        .name("edge")
        .log_level(LogLevel::Debug)
        .log_format(LogFormat::Json)
        .worker_threads(4)
        .shutdown_timeout(Duration::from_secs(5))
        .install_logging(true)
        .metrics_enabled(true)
        .build()
        .expect("configuration is valid");

    assert_eq!(config.name, "edge");
    assert_eq!(config.log_level, LogLevel::Debug);
    assert_eq!(config.log_format, LogFormat::Json);
    assert_eq!(config.worker_threads, Some(4));
    assert_eq!(config.shutdown_timeout, Duration::from_secs(5));
    assert!(config.install_logging);
    assert!(config.metrics_enabled);
}

#[test]
fn empty_name_is_rejected() {
    let err = EngineConfig::builder()
        .name("   ")
        .build()
        .expect_err("empty name must be rejected");
    assert!(matches!(err, Error::InvalidConfig { field: "name", .. }));
}

#[test]
fn zero_worker_threads_is_rejected() {
    let err = EngineConfig::builder()
        .worker_threads(0)
        .build()
        .expect_err("zero worker threads must be rejected");
    assert!(matches!(
        err,
        Error::InvalidConfig {
            field: "worker_threads",
            ..
        }
    ));
}

#[test]
fn zero_shutdown_timeout_is_rejected() {
    let err = EngineConfig::builder()
        .shutdown_timeout(Duration::zero())
        .build()
        .expect_err("zero timeout must be rejected");
    assert!(matches!(
        err,
        Error::InvalidConfig {
            field: "shutdown_timeout",
            ..
        }
    ));
}

#[test]
fn into_builder_roundtrips() {
    let original = EngineConfig::builder()
        .name("roundtrip")
        .worker_threads(2)
        .build()
        .unwrap();
    let rebuilt = original.clone().into_builder().build().unwrap();
    assert_eq!(original, rebuilt);
}

#[test]
fn log_level_parses_case_insensitively() {
    assert_eq!("TRACE".parse::<LogLevel>().unwrap(), LogLevel::Trace);
    assert_eq!("Warning".parse::<LogLevel>().unwrap(), LogLevel::Warn);
    assert_eq!("off".parse::<LogLevel>().unwrap(), LogLevel::Off);
    assert!("verbose".parse::<LogLevel>().is_err());
}

#[test]
fn only_the_documented_level_turns_logging_off() {
    assert_eq!(LogLevel::from_name(" OFF ").expect("known"), LogLevel::Off);
    assert_eq!("none".parse::<LogLevel>(), LogLevel::from_name("none"));
    let refused = LogLevel::from_name("none").expect_err("unknown");
    assert!(refused.to_string().contains("unknown log level `none`"));
}

#[test]
fn log_format_parses_case_insensitively() {
    assert_eq!("JSON".parse::<LogFormat>().unwrap(), LogFormat::Json);
    assert_eq!("pretty".parse::<LogFormat>().unwrap(), LogFormat::Pretty);
    assert!("xml".parse::<LogFormat>().is_err());
}

#[test]
fn log_level_directives_are_lowercase() {
    assert_eq!(LogLevel::Info.as_directive(), "info");
    assert_eq!(LogLevel::Off.as_directive(), "off");
    assert_eq!(LogLevel::Warn.to_string(), "warn");
}

#[test]
fn parse_worker_threads_handles_auto_and_numbers() {
    assert_eq!(parse_worker_threads("auto").unwrap(), None);
    assert_eq!(parse_worker_threads("AUTO").unwrap(), None);
    assert_eq!(parse_worker_threads("8").unwrap(), Some(8));
    assert!(parse_worker_threads("0").is_err());
    assert!(parse_worker_threads("-1").is_err());
    assert!(parse_worker_threads("many").is_err());
}

#[test]
fn parse_bool_accepts_common_spellings() {
    for truthy in ["1", "true", "TRUE", "yes", "on"] {
        assert!(parse_bool(truthy, "INSTALL_LOGGING").unwrap());
    }
    for falsy in ["0", "false", "No", "off"] {
        assert!(!parse_bool(falsy, "INSTALL_LOGGING").unwrap());
    }
    assert!(parse_bool("maybe", "INSTALL_LOGGING").is_err());
}

fn test_engine() -> Engine {
    Engine::builder()
        .name("test")
        .build()
        .expect("configuration is valid")
}

#[test]
fn new_engine_starts_in_created_state() {
    let engine = test_engine();
    assert_eq!(engine.state(), EngineState::Created);
    assert!(!engine.is_running());
}

#[test]
fn full_lifecycle_transitions_are_ordered() {
    let mut engine = test_engine();
    engine.start().expect("start succeeds from Created");
    assert_eq!(engine.state(), EngineState::Running);
    assert!(engine.is_running());
    engine.shutdown().expect("shutdown succeeds from Running");
    assert_eq!(engine.state(), EngineState::Stopped);
    assert!(!engine.is_running());
}

#[test]
fn starting_twice_is_rejected() {
    let mut engine = test_engine();
    engine.start().unwrap();
    assert!(matches!(engine.start(), Err(Error::AlreadyRunning)));
}

#[test]
fn shutdown_before_start_is_rejected() {
    let mut engine = test_engine();
    assert!(matches!(engine.shutdown(), Err(Error::NotRunning)));
}

#[test]
fn using_a_stopped_engine_is_rejected() {
    let mut engine = test_engine();
    engine.start().unwrap();
    engine.shutdown().unwrap();
    assert!(matches!(engine.start(), Err(Error::AlreadyShutDown)));
    assert!(matches!(engine.shutdown(), Err(Error::AlreadyShutDown)));
}

#[test]
fn clones_share_lifecycle_state() {
    let engine = Arc::new(Mutex::new(test_engine()));
    let clone = Arc::clone(&engine);
    engine.lock().expect("not poisoned").start().unwrap();
    // The clone observes the same underlying state.
    assert_eq!(clone.lock().expect("not poisoned").state(), EngineState::Running);
}

#[test]
fn config_is_accessible() {
    let engine = Engine::builder().name("named").build().unwrap();
    assert_eq!(engine.config().name, "named");
}

#[test]
fn engine_state_display_is_stable() {
    assert_eq!(EngineState::Created.to_string(), "created");
    assert_eq!(EngineState::Running.to_string(), "running");
    assert_eq!(EngineState::ShuttingDown.to_string(), "shutting-down");
    assert_eq!(EngineState::Stopped.to_string(), "stopped");
}

#[test]
fn invalid_config_constructor_sets_fields() {
    let err = Error::invalid_config("name", "must not be empty");
    match err {
        Error::InvalidConfig { field, reason } => {
            assert_eq!(field, "name");
            assert_eq!(reason, "must not be empty");
        }
        other => panic!("unexpected variant: {other:?}"),
    }
}

#[test]
fn invalid_env_var_constructor_sets_fields() {
    let err = Error::invalid_env_var("NEXUSNET_NAME", "bad value");
    match err {
        Error::InvalidEnvVar { variable, reason } => {
            assert_eq!(variable, "NEXUSNET_NAME");
            assert_eq!(reason, "bad value");
        }
        other => panic!("unexpected variant: {other:?}"),
    }
}

#[test]
fn display_messages_are_descriptive() {
    assert_eq!(
        Error::AlreadyRunning.to_string(),
        "engine is already running"
    );
    assert_eq!(Error::NotRunning.to_string(), "engine is not running");
    assert_eq!(
        Error::invalid_config("name", "empty").to_string(),
        "invalid configuration for `name`: empty"
    );
}

#[test]
fn version_constants_are_populated() {
    assert_eq!(NAME, "nexusnet-core");
    assert!(!VERSION.is_empty());
    assert_eq!(
        VERSION,
        format!("{VERSION_MAJOR}.{VERSION_MINOR}.{VERSION_PATCH}")
    );
}

#[test]
fn version_string_has_expected_shape() {
    let s = version_string();
    assert!(s.starts_with("nexusnet-core "));
    assert!(s.contains(VERSION));
}

#[test]
fn engine_drives_through_full_lifecycle() {
    let mut engine = Engine::builder()
        .name("integration")
        .build()
        .expect("configuration is valid");

    assert_eq!(engine.state(), EngineState::Created);
    engine.start().expect("engine starts");
    assert_eq!(engine.state(), EngineState::Running);
    engine.shutdown().expect("engine shuts down");
    assert_eq!(engine.state(), EngineState::Stopped);
}

#[test]
fn with_config_matches_builder() {
    let config = EngineConfig::builder()
        .name("via-config")
        .log_level(LogLevel::Warn)
        .log_format(LogFormat::Compact)
        .shutdown_timeout(Duration::from_secs(10))
        .build()
        .unwrap();

    let engine = Engine::with_config(config.clone()).unwrap();
    assert_eq!(engine.config(), &config);
}

#[test]
fn invalid_configuration_surfaces_as_error() {
    let result = Engine::builder().name("").build();
    assert!(matches!(
        result,
        Err(Error::InvalidConfig { field: "name", .. })
    ));
}

#[test]
fn default_engine_builds_and_reports_version() {
    let engine = Engine::new().expect("default engine builds");
    assert_eq!(engine.config().name, "nexusnet");
    assert!(version_string().contains(VERSION));
}

#[test]
fn environment_overrides_are_applied() {
    let mut env = EnvVars::unset();
    env.name = Some("from-env".to_owned());
    env.log_level = Some("debug".to_owned());
    env.worker_threads = Some("3".to_owned());
    env.shutdown_timeout_secs = Some("12".to_owned());
    env.metrics_enabled = Some("yes".to_owned());

    let engine = Engine::builder()
        .name("will-be-overridden")
        .apply_env_overrides(true)
        .build_with_env(&env)
        .expect("environment values are valid");

    let config = engine.config();
    assert_eq!(config.name, "from-env");
    assert_eq!(config.log_level, LogLevel::Debug);
    assert_eq!(config.worker_threads, Some(3));
    assert_eq!(config.shutdown_timeout, Duration::from_secs(12));
    assert!(config.metrics_enabled);

    // A bad value must surface as a typed error.
    env.worker_threads = Some("not-a-number".to_owned());
    let err = EngineConfig::default()
        .with_env_overrides(&env)
        .expect_err("invalid worker thread count must fail");
    assert!(matches!(err, Error::InvalidEnvVar { .. }));
}


#[test]
fn the_environment_is_ignored_unless_asked_for() {
    let mut env = EnvVars::unset();
    env.name = Some("from-env".to_owned());
    let engine = Engine::builder().name("own").build_with_env(&env).expect("valid");
    assert_eq!(engine.config().name, "own");
}

#[test]
fn every_variable_overrides_its_setting() {
    let mut env = EnvVars::unset();
    env.log_format = Some("json".to_owned());
    env.install_logging = Some("1".to_owned());
    env.worker_threads = Some("auto".to_owned());
    let config = EngineConfig::builder().worker_threads(4).build().expect("valid");
    let config = config.with_env_overrides(&env).expect("valid");
    assert_eq!(config.log_format, LogFormat::Json);
    assert!(config.install_logging);
    assert_eq!(config.worker_threads, None);
}

#[test]
fn a_bad_variable_is_named() {
    let mut env = EnvVars::unset();
    env.log_level = Some("loud".to_owned());
    match EngineConfig::default().with_env_overrides(&env) {
        Err(Error::InvalidEnvVar { variable, .. }) => {
            assert_eq!(variable, "NEXUSNET_LOG_LEVEL");
        }
        other => panic!("unexpected: {other:?}"),
    }
    let mut env = EnvVars::unset();
    env.shutdown_timeout_secs = Some("soon".to_owned());
    match EngineConfig::default().with_env_overrides(&env) {
        Err(Error::InvalidEnvVar { variable, .. }) => {
            assert_eq!(variable, "NEXUSNET_SHUTDOWN_TIMEOUT_SECS");
        }
        other => panic!("unexpected: {other:?}"),
    }
    assert_eq!(env_key("NAME"), "NEXUSNET_NAME");
}

#[test]
fn overriding_still_validates() {
    let mut env = EnvVars::unset();
    env.shutdown_timeout_secs = Some("0".to_owned());
    assert!(matches!(
        EngineConfig::default().with_env_overrides(&env),
        Err(Error::InvalidConfig { field: "shutdown_timeout", .. })
    ));
}

#[test]
fn errors_of_the_engine_read_well() {
    assert_eq!(Error::AlreadyShutDown.to_string(), "engine has already been shut down");
    assert_eq!(
        Error::invalid_env_var("NEXUSNET_NAME", "bad").to_string(),
        "environment variable `NEXUSNET_NAME` is invalid: bad"
    );
    assert_eq!(
        Error::LoggingInit("twice".to_owned()).to_string(),
        "failed to initialize logging: twice"
    );
}

#[test]
fn commands_are_recognised() {
    assert_eq!(Command::parse(Some("version")), Command::Version);
    assert_eq!(Command::parse(Some("--version")), Command::Version);
    assert_eq!(Command::parse(Some("-V")), Command::Version);
    assert_eq!(Command::parse(Some("info")), Command::Info);
    assert_eq!(Command::parse(Some("help")), Command::Help);
    assert_eq!(Command::parse(Some("nonsense")), Command::Help);
    assert_eq!(Command::parse(None), Command::Help);
}

#[test]
fn the_command_line_describes_an_engine() {
    let engine = Engine::builder().name("edge").worker_threads(4).build().expect("valid");
    let lines = info_lines(&engine);
    assert_eq!(lines[0], version_string());
    assert_eq!(lines[1], "name            : edge");
    assert_eq!(lines[4], "worker threads  : 4");
    assert_eq!(lines[5], "shutdown timeout: 30s");
    assert_eq!(lines[6], "metrics enabled : false");
    assert_eq!(lines[7], "state           : created");
    assert_eq!(help_lines()[2], "Usage: nexusnet <command>");
}

#[test]
fn spans_read_as_the_standard_library_writes_them() {
    let samples: [(u64, u32); 14] = [
        (0, 0),
        (0, 1),
        (0, 999),
        (0, 1_000),
        (0, 1_500),
        (0, 999_999),
        (0, 1_000_000),
        (0, 10_500_000),
        (0, 999_999_999),
        (1, 0),
        (1, 500_000_000),
        (30, 0),
        (90, 1),
        (u64::MAX, 999_999_999),
    ];
    for (secs, nanos) in samples {
        assert_eq!(
            Duration::from_parts(secs, nanos).debug_string(),
            format!("{:?}", std::time::Duration::new(secs, nanos)),
        );
    }
}

#[test]
fn the_command_line_resolves_the_environment() {
    let mut env = EnvVars::unset();
    let engine = resolve(&env).expect("the defaults are valid");
    assert_eq!(engine.config(), &EngineConfig::default());
    assert_eq!(engine.state(), EngineState::Created);

    env.name = Some("edge".to_owned());
    env.shutdown_timeout_secs = Some("90".to_owned());
    env.metrics_enabled = Some("yes".to_owned());
    let engine = resolve(&env).expect("valid");
    let lines = info_lines(&engine);
    assert_eq!(lines[1], "name            : edge");
    assert_eq!(lines[5], "shutdown timeout: 90s");
    assert_eq!(lines[6], "metrics enabled : true");

    env.shutdown_timeout_secs = Some("0".to_owned());
    let error = resolve(&env).expect_err("no time to shut down");
    assert_eq!(
        error.to_string(),
        "invalid configuration for `shutdown_timeout`: shutdown timeout must be greater than zero",
    );
}

#[test]
fn worker_threads_can_be_left_to_the_runtime_again() {
    let builder = EngineConfig::builder().worker_threads(4);
    let fixed = builder.clone().build().expect("valid");
    assert_eq!(fixed.worker_threads, Some(4));
    let free = builder.auto_worker_threads().build().expect("valid");
    assert_eq!(free.worker_threads, None);
}
