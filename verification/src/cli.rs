//! What the `nexusnet` command line says and does, apart from printing it.

use crate::engine::config::{EngineConfig, EnvVars, Settings};
use crate::engine::error::Result;
use crate::engine::lifecycle::Engine;
use crate::engine::version::version_string;
use crate::text;
use crate::time;
use vstd::prelude::*;

verus! {

/// What the command line asks for.
#[derive(Debug, Clone, Copy, PartialEq, Eq, Structural)]
pub enum Command {
    /// Print the version.
    Version,
    /// Resolve the configuration and print it.
    Info,
    /// Print the help text.
    Help,
}

impl Command {
    /// The command that the first argument names; anything else asks for help.
    pub open spec fn named(arg: Option<Seq<char>>) -> Command {
        match arg {
            Some(a) => if a == "version"@ || a == "--version"@ || a == "-V"@ {
                Command::Version
            } else if a == "info"@ {
                Command::Info
            } else {
                Command::Help
            },
            None => Command::Help,
        }
    }

    /// Reads the first argument of the command line.
    pub fn parse(arg: Option<&str>) -> (c: Command)
        ensures
            c == Command::named(
                match arg {
                    Some(a) => Some(a@),
                    None => None,
                },
            ),
    {
        match arg {
            Some(a) => {
                if text::same(a, "version") || text::same(a, "--version") || text::same(a, "-V") {
                    Command::Version
                } else if text::same(a, "info") {
                    Command::Info
                } else {
                    Command::Help
                }
            },
            None => Command::Help,
        }
    }
}

fn labelled(label: &str, value: &str) -> (s: String)
    ensures
        s@ == label@ + value@,
{
    let mut s = label.to_owned();
    s.append(value);
    s
}

/// Resolves the configuration from the defaults and the environment, and
/// validates it by building an engine.
pub fn resolve(env: &EnvVars) -> (r: Result<Engine>)
    ensures
        match Settings::initial().overridden(env@) {
            Ok(s) => r matches Ok(e) && e.settings() == s && e.stage() is Created,
            Err(p) => r matches Err(e) && e@ == p,
        },
{
    match EngineConfig::default().with_env_overrides(env) {
        Ok(config) => {
            proof {
                crate::engine::config::overriding_validates(Settings::initial(), env@);
            }
            Engine::with_config(config)
        },
        Err(e) => Err(e),
    }
}

/// The lines that describe an engine.
pub fn info_lines(engine: &Engine) -> (lines: Vec<String>)
    ensures
        lines@.len() == 8,
        lines@[0]@ == crate::engine::version::NAME@ + " "@ + crate::engine::version::VERSION@,
        lines@[1]@ == "name            : "@ + engine.settings().name,
        lines@[2]@ == "log level       : "@ + engine.settings().log_level.text(),
        lines@[3]@ == "log format      : "@ + engine.settings().log_format.text(),
        lines@[4]@ == "worker threads  : "@ + match engine.settings().worker_threads {
            Some(n) => text::decimal(n as nat),
            None => "auto"@,
        },
        lines@[5]@ == "shutdown timeout: "@ + time::span_text(engine.settings().shutdown_nanos),
        lines@[6]@ == "metrics enabled : "@ + if engine.settings().metrics_enabled {
            "true"@
        } else {
            "false"@
        },
        lines@[7]@ == "state           : "@ + engine.stage().text(),
{
    let config = engine.config();
    let mut lines: Vec<String> = Vec::new();
    lines.push(version_string());
    lines.push(labelled("name            : ", config.name.as_str()));
    lines.push(labelled("log level       : ", config.log_level.to_string().as_str()));
    lines.push(labelled("log format      : ", config.log_format.to_string().as_str()));
    let threads = match config.worker_threads {
        Some(n) => {
            let mut s = String::new();
            text::push_decimal(&mut s, n as u128);
            assert(s@ =~= text::decimal(n as nat));
            s
        },
        None => "auto".to_owned(),
    };
    lines.push(labelled("worker threads  : ", threads.as_str()));
    let timeout = config.shutdown_timeout.debug_string();
    lines.push(labelled("shutdown timeout: ", timeout.as_str()));
    let metrics = if config.metrics_enabled {
        "true"
    } else {
        "false"
    };
    lines.push(labelled("metrics enabled : ", metrics));
    lines.push(labelled("state           : ", engine.state().to_string().as_str()));
    lines
}

/// The lines of the help text.
pub fn help_lines() -> (lines: Vec<String>)
    ensures
        lines@.len() == 8,
        lines@[0]@ == crate::engine::version::NAME@ + " "@ + crate::engine::version::VERSION@,
        lines@[1]@ == ""@,
        lines@[2]@ == "Usage: nexusnet <command>"@,
        lines@[3]@ == ""@,
        lines@[4]@ == "Commands:"@,
        lines@[5]@ == "  version    Print the engine version and exit."@,
        lines@[6]@
            == "  info       Resolve configuration from NEXUSNET_* env vars and print it."@,
        lines@[7]@ == "  help       Print this help text."@,
{
    let mut lines: Vec<String> = Vec::new();
    lines.push(version_string());
    lines.push("".to_owned());
    lines.push("Usage: nexusnet <command>".to_owned());
    lines.push("".to_owned());
    lines.push("Commands:".to_owned());
    lines.push("  version    Print the engine version and exit.".to_owned());
    lines.push(
        "  info       Resolve configuration from NEXUSNET_* env vars and print it.".to_owned(),
    );
    lines.push("  help       Print this help text.".to_owned());
    lines
}

/// The version and the configuration are shown for their own words, and everything
/// else, nothing included, asks for help.
pub proof fn commands_have_their_words(a: Seq<char>)
    ensures
        Command::named(None) is Help,
        Command::named(Some(a)) is Version <==> a == "version"@ || a == "--version"@ || a == "-V"@,
        Command::named(Some(a)) is Info <==> a == "info"@,
{
    reveal_strlit("version");
    reveal_strlit("--version");
    reveal_strlit("-V");
    reveal_strlit("info");
    assert("version"@[0] == 'v' && "--version"@[0] == '-' && "-V"@[0] == '-' && "info"@[0] == 'i');
}

} // verus!
