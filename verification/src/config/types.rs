//! Configuration sections and their defaults.

use vstd::prelude::*;
use std::time::Duration;
use crate::text::owned;
use crate::time::{duration_from_secs, sub_nanos, whole_secs};

verus! {

/// One LLM provider: its name, the environment variable holding its API key,
/// an optional base URL and the models it offers.
#[derive(Debug)]
pub struct ProviderConfig {
    pub name: String,
    pub api_key_env: String,
    pub base_url: Option<String>,
    pub models: Vec<String>,
}

/// How workflows are executed.
#[derive(Debug)]
pub struct ExecutionConfig {
    pub max_parallel_agents: usize,
    pub default_timeout: Duration,
    pub retry_attempts: u32,
    pub retry_delay: Duration,
}

/// What a permission rule does.
#[derive(Debug, Clone, Copy, PartialEq, Eq, Structural)]
pub enum PolicyAction {
    Allow,
    Deny,
    Prompt,
}

/// Which commands and tools need approval.
#[derive(Debug)]
pub struct PermissionConfig {
    pub require_approval: bool,
    pub allowed_commands: Vec<String>,
    pub blocked_commands: Vec<String>,
    pub policies: Vec<(String, PolicyAction)>,
}

/// The web interface.
#[derive(Debug)]
pub struct UIConfig {
    pub enabled: bool,
    pub port: u16,
    pub host: String,
}

/// How log lines are written.
#[derive(Debug, Clone, Copy, PartialEq, Eq, Structural)]
pub enum LogFormat {
    Json,
    Pretty,
    Compact,
}

/// Logging.
#[derive(Debug)]
pub struct LoggingConfig {
    pub level: String,
    pub format: LogFormat,
    pub log_to_file: bool,
    pub log_file_path: Option<String>,
}

/// Default model name.
pub fn default_model() -> (s: String)
    ensures
        s@ == "gpt-4"@,
{
    owned("gpt-4")
}

/// Default number of tokens a completion may produce.
pub fn default_max_tokens() -> (n: u32)
    ensures
        n == 2048,
{
    2048
}

/// Default language model provider, as `provider:model`.
pub fn default_provider() -> (s: String)
    ensures
        s@ == "ollama:llama3"@,
{
    owned("ollama:llama3")
}

/// Default number of agents that run at once.
pub fn default_max_parallel_agents() -> (n: usize)
    ensures
        n == 10,
{
    10
}

/// Default execution timeout: five minutes.
pub fn default_timeout() -> (d: Duration)
    ensures
        whole_secs(d) == 300,
        sub_nanos(d) == 0,
{
    duration_from_secs(300)
}

/// Default number of retries.
pub fn default_retry_attempts() -> (n: u32)
    ensures
        n == 3,
{
    3
}

/// Default delay between retries: one second.
pub fn default_retry_delay() -> (d: Duration)
    ensures
        whole_secs(d) == 1,
        sub_nanos(d) == 0,
{
    duration_from_secs(1)
}

/// By default, approval is required.
pub fn default_require_approval() -> (b: bool)
    ensures
        b,
{
    true
}

/// By default, the web interface is enabled.
pub fn default_enabled() -> (b: bool)
    ensures
        b,
{
    true
}

/// Default port of the web interface.
pub fn default_port() -> (p: u16)
    ensures
        p == 3000,
{
    3000
}

/// Default host of the web interface.
pub fn default_host() -> (s: String)
    ensures
        s@ == "127.0.0.1"@,
{
    owned("127.0.0.1")
}

/// Default log level.
pub fn default_level() -> (s: String)
    ensures
        s@ == "info"@,
{
    owned("info")
}

/// Default log format.
pub fn default_format() -> (f: LogFormat)
    ensures
        f == LogFormat::Pretty,
{
    LogFormat::Pretty
}

/// By default, logs are not written to a file.
pub fn default_log_to_file() -> (b: bool)
    ensures
        !b,
{
    false
}

impl Default for ExecutionConfig {
    fn default() -> (c: Self)
        ensures
            c.max_parallel_agents == 10,
            whole_secs(c.default_timeout) == 300,
            sub_nanos(c.default_timeout) == 0,
            c.retry_attempts == 3,
            whole_secs(c.retry_delay) == 1,
            sub_nanos(c.retry_delay) == 0,
    {
        ExecutionConfig {
            max_parallel_agents: default_max_parallel_agents(),
            default_timeout: default_timeout(),
            retry_attempts: default_retry_attempts(),
            retry_delay: default_retry_delay(),
        }
    }
}

impl Default for PermissionConfig {
    fn default() -> (c: Self)
        ensures
            c.require_approval,
            c.allowed_commands@.len() == 0,
            c.blocked_commands@.len() == 0,
            c.policies@.len() == 0,
    {
        PermissionConfig {
            require_approval: default_require_approval(),
            allowed_commands: Vec::new(),
            blocked_commands: Vec::new(),
            policies: Vec::new(),
        }
    }
}

impl Default for UIConfig {
    fn default() -> (c: Self)
        ensures
            c.enabled,
            c.port == 3000,
            c.host@ == "127.0.0.1"@,
    {
        UIConfig { enabled: default_enabled(), port: default_port(), host: default_host() }
    }
}

impl Default for LoggingConfig {
    fn default() -> (c: Self)
        ensures
            c.level@ == "info"@,
            c.format == LogFormat::Pretty,
            !c.log_to_file,
            c.log_file_path is None,
    {
        LoggingConfig {
            level: default_level(),
            format: default_format(),
            log_to_file: default_log_to_file(),
            log_file_path: None,
        }
    }
}

/// The provider configured when none is given: OpenAI, its key in
/// `OPENAI_API_KEY`, with `gpt-4` and `gpt-3.5-turbo`.
pub fn default_provider_config() -> (p: ProviderConfig)
    ensures
        p.name@ == "openai"@,
        p.api_key_env@ == "OPENAI_API_KEY"@,
        p.base_url matches Some(u) && u@ == "https://api.openai.com/v1"@,
        p.models@.len() == 2,
        p.models@[0]@ == "gpt-4"@,
        p.models@[1]@ == "gpt-3.5-turbo"@,
{
    let mut models: Vec<String> = Vec::new();
    models.push(owned("gpt-4"));
    models.push(owned("gpt-3.5-turbo"));
    ProviderConfig {
        name: owned("openai"),
        api_key_env: owned("OPENAI_API_KEY"),
        base_url: Some(owned("https://api.openai.com/v1")),
        models,
    }
}

} // verus!
