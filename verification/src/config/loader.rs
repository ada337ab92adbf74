//! Where configuration lives, and the settings that the environment and the
//! command line may change.

use vstd::prelude::*;
use crate::config::types::{ExecutionConfig, LogFormat, LoggingConfig, UIConfig};
use crate::error::Error;
use crate::numbers::{digits_value, parse_bool, parse_bool_exec, parse_u16, parse_u64, parse_unsigned, parse_usize};
use crate::text::{chars_of, concat, decimal, owned, str_eq, u64_text, usize_text};
use crate::time::{duration_as_secs, duration_from_secs, sub_nanos, whole_secs};

verus! {

/// `base` followed by the path component `part`, as `Path::join` puts them
/// together on Unix: an absolute `part` replaces `base`, and a separator is
/// added unless `base` is empty or already ends with one.
pub open spec fn joined(base: Seq<char>, part: Seq<char>) -> Seq<char> {
    if part.len() > 0 && part[0] == '/' {
        part
    } else if base.len() == 0 {
        part
    } else if base.last() == '/' {
        base + part
    } else {
        base + "/"@ + part
    }
}

/// Joins a path component to a base path (see `joined`).
pub fn join_path(base: &str, part: &str) -> (r: String)
    ensures
        r@ == joined(base@, part@),
{
    let b = chars_of(base);
    let p = chars_of(part);
    if p.len() > 0 && p[0] == '/' {
        owned(part)
    } else if b.len() == 0 {
        owned(part)
    } else if b[b.len() - 1] == '/' {
        concat(base, part)
    } else {
        let with_sep = concat(base, "/");
        concat(with_sep.as_str(), part)
    }
}

/// The lowercase form of a string, as `str::to_lowercase` gives it.
pub uninterp spec fn lowercase_text(s: Seq<char>) -> Seq<char>;

/// `str::to_lowercase`: the result is named by `lowercase_text`.
#[verifier::external_body]
fn to_lowercase(s: &str) -> (r: String)
    ensures
        r@ == lowercase_text(s@),
{
    s.to_lowercase()
}

/// The values of the `RUSTFORGE_*` environment variables that override the
/// configuration (`None` where a variable is not set).
#[derive(Debug)]
pub struct EnvOverrides {
    pub max_parallel_agents: Option<String>,
    pub default_timeout: Option<String>,
    pub ui_port: Option<String>,
    pub ui_host: Option<String>,
    pub ui_enabled: Option<String>,
    pub log_level: Option<String>,
    pub log_format: Option<String>,
    pub default_model: Option<String>,
    /// `RUSTFORGE_DEFAULT_LLM`: the default provider, such as `openai:gpt-4`.
    pub default_llm: Option<String>,
}

/// The log format that a `RUSTFORGE_LOG_FORMAT` value names, matched without
/// regard to case.
pub open spec fn log_format_named(v: Seq<char>) -> Option<LogFormat> {
    let l = lowercase_text(v);
    if l == "json"@ {
        Some(LogFormat::Json)
    } else if l == "pretty"@ {
        Some(LogFormat::Pretty)
    } else if l == "compact"@ {
        Some(LogFormat::Compact)
    } else {
        None
    }
}

/// Loads configuration from its files and the environment.
pub struct ConfigLoader;

impl ConfigLoader {
    /// The project configuration file, relative to the working directory.
    pub fn project_config_path() -> (p: String)
        ensures
            p@ == joined(".rustforge"@, "config.toml"@),
    {
        join_path(".rustforge", "config.toml")
    }

    /// The user configuration file under the home directory `home`.
    pub fn user_config_path(home: &str) -> (p: String)
        ensures
            p@ == joined(joined(home@, ".rustforge"@), "config.toml"@),
    {
        let dir = join_path(home, ".rustforge");
        join_path(dir.as_str(), "config.toml")
    }

    /// Applies the environment overrides: a number, port or flag that does
    /// not parse, and a log format that names none, leave the setting as it was.
    pub fn apply_env_overrides(
        execution: &mut ExecutionConfig,
        ui: &mut UIConfig,
        logging: &mut LoggingConfig,
        default_model: &mut String,
        default_provider: &mut String,
        vars: &EnvOverrides,
    )
        ensures
            final(execution).max_parallel_agents == (match vars.max_parallel_agents {
                Some(v) => match parse_unsigned(v@, usize::MAX as nat) {
                    Some(n) => n as usize,
                    None => old(execution).max_parallel_agents,
                },
                None => old(execution).max_parallel_agents,
            }),
            whole_secs(final(execution).default_timeout) == (match vars.default_timeout {
                Some(v) => match parse_unsigned(v@, u64::MAX as nat) {
                    Some(n) => n as u64,
                    None => whole_secs(old(execution).default_timeout),
                },
                None => whole_secs(old(execution).default_timeout),
            }),
            (vars.default_timeout is None || parse_unsigned(vars.default_timeout->0@, u64::MAX as nat) is None)
                ==> final(execution).default_timeout == old(execution).default_timeout,
            (vars.default_timeout is Some && parse_unsigned(vars.default_timeout->0@, u64::MAX as nat) is Some)
                ==> sub_nanos(final(execution).default_timeout) == 0,
            final(execution).retry_attempts == old(execution).retry_attempts,
            final(execution).retry_delay == old(execution).retry_delay,
            final(ui).port == (match vars.ui_port {
                Some(v) => match parse_unsigned(v@, u16::MAX as nat) {
                    Some(n) => n as u16,
                    None => old(ui).port,
                },
                None => old(ui).port,
            }),
            final(ui).host@ == (match vars.ui_host {
                Some(v) => v@,
                None => old(ui).host@,
            }),
            final(ui).enabled == (match vars.ui_enabled {
                Some(v) => match parse_bool(v@) {
                    Some(b) => b,
                    None => old(ui).enabled,
                },
                None => old(ui).enabled,
            }),
            final(logging).level@ == (match vars.log_level {
                Some(v) => v@,
                None => old(logging).level@,
            }),
            final(logging).format == (match vars.log_format {
                Some(v) => match log_format_named(v@) {
                    Some(f) => f,
                    None => old(logging).format,
                },
                None => old(logging).format,
            }),
            final(logging).log_to_file == old(logging).log_to_file,
            final(logging).log_file_path == old(logging).log_file_path,
            final(default_model)@ == (match vars.default_model {
                Some(v) => v@,
                None => old(default_model)@,
            }),
            final(default_provider)@ == (match vars.default_llm {
                Some(v) => v@,
                None => old(default_provider)@,
            }),
    {
        if let Some(v) = &vars.max_parallel_agents {
            if let Some(n) = parse_usize(v.as_str()) {
                execution.max_parallel_agents = n;
            }
        }
        if let Some(v) = &vars.default_timeout {
            if let Some(secs) = parse_u64(v.as_str()) {
                execution.default_timeout = duration_from_secs(secs);
            }
        }
        if let Some(v) = &vars.ui_port {
            if let Some(p) = parse_u16(v.as_str()) {
                ui.port = p;
            }
        }
        if let Some(v) = &vars.ui_host {
            ui.host = v.clone();
        }
        if let Some(v) = &vars.ui_enabled {
            if let Some(b) = parse_bool_exec(v.as_str()) {
                ui.enabled = b;
            }
        }
        if let Some(v) = &vars.log_level {
            logging.level = v.clone();
        }
        if let Some(v) = &vars.log_format {
            let l = to_lowercase(v.as_str());
            if str_eq(l.as_str(), "json") {
                logging.format = LogFormat::Json;
            } else if str_eq(l.as_str(), "pretty") {
                logging.format = LogFormat::Pretty;
            } else if str_eq(l.as_str(), "compact") {
                logging.format = LogFormat::Compact;
            }
        }
        if let Some(v) = &vars.default_model {
            *default_model = v.clone();
        }
        if let Some(v) = &vars.default_llm {
            *default_provider = v.clone();
        }
    }
}

/// What `config get` prints for a key, or `None` for a key it does not know.
pub open spec fn config_value_text(
    execution: ExecutionConfig,
    default_provider: Seq<char>,
    logging: LoggingConfig,
    ui: UIConfig,
    key: Seq<char>,
) -> Option<Seq<char>> {
    if key == "execution.max_parallel_agents"@ {
        Some(decimal(execution.max_parallel_agents as nat))
    } else if key == "execution.default_timeout"@ {
        Some(decimal(whole_secs(execution.default_timeout) as nat))
    } else if key == "llm.default_provider"@ {
        Some(default_provider)
    } else if key == "logging.level"@ {
        Some(logging.level@)
    } else if key == "ui.port"@ {
        Some(decimal(ui.port as nat))
    } else {
        None
    }
}

/// The value of a configuration key as text; the keys are
/// `execution.max_parallel_agents`, `execution.default_timeout` (seconds),
/// `llm.default_provider`, `logging.level` and `ui.port`.
pub fn get_config_value(
    execution: &ExecutionConfig,
    default_provider: &str,
    logging: &LoggingConfig,
    ui: &UIConfig,
    key: &str,
) -> (r: Result<String, Error>)
    ensures
        match config_value_text(*execution, default_provider@, *logging, *ui, key@) {
            Some(t) => r matches Ok(s) && s@ == t,
            None => r matches Err(Error::Config(m)) && m@ == "Unknown config key: "@ + key@,
        },
{
    if str_eq(key, "execution.max_parallel_agents") {
        Ok(usize_text(execution.max_parallel_agents))
    } else if str_eq(key, "execution.default_timeout") {
        Ok(u64_text(duration_as_secs(&execution.default_timeout)))
    } else if str_eq(key, "llm.default_provider") {
        Ok(owned(default_provider))
    } else if str_eq(key, "logging.level") {
        Ok(logging.level.clone())
    } else if str_eq(key, "ui.port") {
        Ok(u64_text(ui.port as u64))
    } else {
        Err(Error::Config(concat("Unknown config key: ", key)))
    }
}

/// Whether `key` is one that `config set` knows.
pub open spec fn settable_key(key: Seq<char>) -> bool {
    key == "execution.max_parallel_agents"@ || key == "execution.default_timeout"@
        || key == "llm.default_provider"@ || key == "logging.level"@ || key == "ui.port"@
}

/// The number that an unsigned numeral stands for, leading `+` aside.
pub open spec fn unsigned_value(s: Seq<char>) -> nat {
    digits_value(if s.len() > 0 && s[0] == '+' { s.drop_first() } else { s })
}

/// A successful `config set` of `key` to `value`: the key is known, the
/// setting it names now holds `value` (read as a number where it is one),
/// and every other setting that `config get` shows is unchanged.
pub open spec fn config_set_ok(
    execution: ExecutionConfig,
    default_provider: Seq<char>,
    logging: LoggingConfig,
    ui: UIConfig,
    key: Seq<char>,
    value: Seq<char>,
    new_execution: ExecutionConfig,
    new_provider: Seq<char>,
    new_logging: LoggingConfig,
    new_ui: UIConfig,
) -> bool {
    &&& settable_key(key)
    &&& key == "execution.max_parallel_agents"@ ==> parse_unsigned(value, usize::MAX as nat) is Some
        && new_execution.max_parallel_agents == unsigned_value(value)
    &&& key == "execution.default_timeout"@ ==> parse_unsigned(value, u64::MAX as nat) is Some
        && whole_secs(new_execution.default_timeout) == unsigned_value(value)
        && sub_nanos(new_execution.default_timeout) == 0
    &&& key == "llm.default_provider"@ ==> new_provider == value
    &&& key == "logging.level"@ ==> new_logging.level@ == value
    &&& key == "ui.port"@ ==> parse_unsigned(value, u16::MAX as nat) is Some && new_ui.port == unsigned_value(value)
    &&& key != "execution.max_parallel_agents"@ ==> new_execution.max_parallel_agents == execution.max_parallel_agents
    &&& key != "execution.default_timeout"@ ==> new_execution.default_timeout == execution.default_timeout
    &&& key != "llm.default_provider"@ ==> new_provider == default_provider
    &&& key != "logging.level"@ ==> new_logging.level@ == logging.level@
    &&& key != "ui.port"@ ==> new_ui.port == ui.port
}

/// Reading a key after setting it: `config get` then shows the value that was
/// set (a number in its plain decimal form), and every other key shows what
/// it showed before.
pub proof fn law_config_set_then_get(
    execution: ExecutionConfig,
    default_provider: Seq<char>,
    logging: LoggingConfig,
    ui: UIConfig,
    key: Seq<char>,
    value: Seq<char>,
    new_execution: ExecutionConfig,
    new_provider: Seq<char>,
    new_logging: LoggingConfig,
    new_ui: UIConfig,
)
    requires
        config_set_ok(execution, default_provider, logging, ui, key, value, new_execution, new_provider, new_logging, new_ui),
    ensures
        config_value_text(new_execution, new_provider, new_logging, new_ui, key) == Some(
            if key == "llm.default_provider"@ || key == "logging.level"@ { value } else { decimal(unsigned_value(value)) },
        ),
        forall|k: Seq<char>| k != key ==> #[trigger] config_value_text(new_execution, new_provider, new_logging, new_ui, k)
            == config_value_text(execution, default_provider, logging, ui, k),
{
    reveal_strlit("execution.max_parallel_agents");
    reveal_strlit("execution.default_timeout");
    reveal_strlit("llm.default_provider");
    reveal_strlit("logging.level");
    reveal_strlit("ui.port");
    assert("execution.max_parallel_agents"@.len() == 29);
    assert("execution.default_timeout"@.len() == 25);
    assert("llm.default_provider"@.len() == 20);
    assert("logging.level"@.len() == 13);
    assert("ui.port"@.len() == 7);
}

/// Sets a configuration key from text (same keys as `get_config_value`).
/// Fails on an unknown key, and on a number or port that does not parse,
/// changing nothing then.
pub fn set_config_value(
    execution: &mut ExecutionConfig,
    default_provider: &mut String,
    logging: &mut LoggingConfig,
    ui: &mut UIConfig,
    key: &str,
    value: &str,
) -> (r: Result<(), Error>)
    ensures
        !settable_key(key@) ==> (r matches Err(Error::Config(m)) && m@ == "Unknown config key: "@ + key@),
        key@ == "execution.max_parallel_agents"@ ==> match parse_unsigned(value@, usize::MAX as nat) {
            Some(n) => r is Ok && final(execution).max_parallel_agents == n,
            None => r matches Err(Error::Config(m)) && m@ == "Invalid number"@,
        },
        key@ == "execution.default_timeout"@ ==> match parse_unsigned(value@, u64::MAX as nat) {
            Some(n) => r is Ok && whole_secs(final(execution).default_timeout) == n
                && sub_nanos(final(execution).default_timeout) == 0,
            None => r matches Err(Error::Config(m)) && m@ == "Invalid number"@,
        },
        key@ == "llm.default_provider"@ ==> r is Ok && final(default_provider)@ == value@,
        key@ == "logging.level"@ ==> r is Ok && final(logging).level@ == value@,
        key@ == "ui.port"@ ==> match parse_unsigned(value@, u16::MAX as nat) {
            Some(n) => r is Ok && final(ui).port == n,
            None => r matches Err(Error::Config(m)) && m@ == "Invalid port number"@,
        },
        key@ != "execution.max_parallel_agents"@ || r is Err ==>
            final(execution).max_parallel_agents == old(execution).max_parallel_agents,
        key@ != "execution.default_timeout"@ || r is Err ==>
            final(execution).default_timeout == old(execution).default_timeout,
        final(execution).retry_attempts == old(execution).retry_attempts,
        final(execution).retry_delay == old(execution).retry_delay,
        key@ != "llm.default_provider"@ ==> final(default_provider)@ == old(default_provider)@,
        key@ != "logging.level"@ ==> final(logging).level@ == old(logging).level@,
        final(logging).format == old(logging).format,
        final(logging).log_to_file == old(logging).log_to_file,
        final(logging).log_file_path == old(logging).log_file_path,
        key@ != "ui.port"@ || r is Err ==> final(ui).port == old(ui).port,
        final(ui).host == old(ui).host,
        final(ui).enabled == old(ui).enabled,
        r is Ok ==> config_set_ok(*old(execution), old(default_provider)@, *old(logging), *old(ui), key@, value@,
            *final(execution), final(default_provider)@, *final(logging), *final(ui)),
{
    proof {
        reveal_strlit("execution.max_parallel_agents");
        reveal_strlit("execution.default_timeout");
        reveal_strlit("llm.default_provider");
        reveal_strlit("logging.level");
        reveal_strlit("ui.port");
        assert("execution.max_parallel_agents"@.len() == 29);
        assert("execution.default_timeout"@.len() == 25);
        assert("llm.default_provider"@.len() == 20);
        assert("logging.level"@.len() == 13);
        assert("ui.port"@.len() == 7);
    }
    if str_eq(key, "execution.max_parallel_agents") {
        match parse_usize(value) {
            Some(n) => {
                execution.max_parallel_agents = n;
                Ok(())
            },
            None => Err(Error::Config(owned("Invalid number"))),
        }
    } else if str_eq(key, "execution.default_timeout") {
        match parse_u64(value) {
            Some(secs) => {
                execution.default_timeout = duration_from_secs(secs);
                Ok(())
            },
            None => Err(Error::Config(owned("Invalid number"))),
        }
    } else if str_eq(key, "llm.default_provider") {
        *default_provider = owned(value);
        Ok(())
    } else if str_eq(key, "logging.level") {
        logging.level = owned(value);
        Ok(())
    } else if str_eq(key, "ui.port") {
        match parse_u16(value) {
            Some(p) => {
                ui.port = p;
                Ok(())
            },
            None => Err(Error::Config(owned("Invalid port number"))),
        }
    } else {
        Err(Error::Config(concat("Unknown config key: ", key)))
    }
}

} // verus!
