use std::time::Duration;
use rustforge::cli::commands::{Cli, CliError, Commands, ConfigCommands};
use rustforge::config::loader::{ConfigLoader, EnvOverrides, get_config_value, set_config_value};
use rustforge::config::types::{
    ExecutionConfig, LogFormat, LoggingConfig, PermissionConfig, UIConfig, default_provider, default_provider_config,
};
use rustforge::error::Error;

fn args(items: &[&str]) -> Vec<String> {
    items.iter().map(|s| s.to_string()).collect()
}

#[test]
fn test_execution_config_default() {
    let config = ExecutionConfig::default();
    assert_eq!(config.max_parallel_agents, 10);
    assert_eq!(config.default_timeout.as_secs(), 300);
    assert_eq!(config.default_timeout.subsec_nanos(), 0);
    assert_eq!(config.retry_attempts, 3);
    assert_eq!(config.retry_delay, Duration::from_secs(1));
}

#[test]
fn test_ui_config_default() {
    let config = UIConfig::default();
    assert_eq!(config.port, 3000);
    assert_eq!(config.host, "127.0.0.1");
    assert!(config.enabled);
}

#[test]
fn test_permission_config_default() {
    let config = PermissionConfig::default();
    assert!(config.require_approval);
    assert!(config.allowed_commands.is_empty());
}

#[test]
fn test_logging_config_default() {
    let config = LoggingConfig::default();
    assert_eq!(config.level, "info");
    assert_eq!(config.format, LogFormat::Pretty);
    assert!(!config.log_to_file);
}

#[test]
fn default_provider_is_openai() {
    let p = default_provider_config();
    assert_eq!(p.name, "openai");
    assert_eq!(p.models, vec!["gpt-4".to_string(), "gpt-3.5-turbo".to_string()]);
    assert_eq!(p.base_url.as_deref(), Some("https://api.openai.com/v1"));
}

#[test]
fn test_get_config_value() {
    let execution = ExecutionConfig::default();
    let logging = LoggingConfig::default();
    let ui = UIConfig::default();
    let value = get_config_value(&execution, "ollama:llama3", &logging, &ui, "execution.max_parallel_agents").unwrap();
    assert_eq!(value, "10");
    let provider = default_provider();
    let value = get_config_value(&execution, &provider, &logging, &ui, "llm.default_provider").unwrap();
    assert_eq!(value, "ollama:llama3");
    assert!(get_config_value(&execution, &provider, &logging, &ui, "unknown.key").is_err());
}

#[test]
fn test_set_config_value() {
    let mut execution = ExecutionConfig::default();
    let mut provider = "ollama:llama3".to_string();
    let mut logging = LoggingConfig::default();
    let mut ui = UIConfig::default();
    set_config_value(&mut execution, &mut provider, &mut logging, &mut ui, "execution.max_parallel_agents", "20").unwrap();
    assert_eq!(execution.max_parallel_agents, 20);
    set_config_value(&mut execution, &mut provider, &mut logging, &mut ui, "llm.default_provider", "openai:gpt-4").unwrap();
    assert_eq!(provider, "openai:gpt-4");
}

#[test]
fn test_get_unknown_config_key() {
    let execution = ExecutionConfig::default();
    let logging = LoggingConfig::default();
    let ui = UIConfig::default();
    let result = get_config_value(&execution, "x", &logging, &ui, "unknown.key");
    assert!(result.is_err());
}

#[test]
fn config_values_round_trip_and_errors() {
    let mut execution = ExecutionConfig::default();
    let mut provider = String::new();
    let mut logging = LoggingConfig::default();
    let mut ui = UIConfig::default();
    set_config_value(&mut execution, &mut provider, &mut logging, &mut ui, "execution.default_timeout", "+45").unwrap();
    assert_eq!(get_config_value(&execution, &provider, &logging, &ui, "execution.default_timeout").unwrap(), "45");
    set_config_value(&mut execution, &mut provider, &mut logging, &mut ui, "ui.port", "8080").unwrap();
    assert_eq!(get_config_value(&execution, &provider, &logging, &ui, "ui.port").unwrap(), "8080");
    match set_config_value(&mut execution, &mut provider, &mut logging, &mut ui, "ui.port", "70000") {
        Err(Error::Config(m)) => assert_eq!(m, "Invalid port number"),
        other => panic!("unexpected {:?}", other),
    }
    assert_eq!(ui.port, 8080);
    match set_config_value(&mut execution, &mut provider, &mut logging, &mut ui, "execution.max_parallel_agents", "ten") {
        Err(Error::Config(m)) => assert_eq!(m, "Invalid number"),
        other => panic!("unexpected {:?}", other),
    }
    match set_config_value(&mut execution, &mut provider, &mut logging, &mut ui, "nope", "1") {
        Err(Error::Config(m)) => assert_eq!(m, "Unknown config key: nope"),
        other => panic!("unexpected {:?}", other),
    }
    set_config_value(&mut execution, &mut provider, &mut logging, &mut ui, "logging.level", "debug").unwrap();
    assert_eq!(logging.level, "debug");
}

#[test]
fn env_overrides_apply_what_parses() {
    let mut execution = ExecutionConfig::default();
    let mut ui = UIConfig::default();
    let mut logging = LoggingConfig::default();
    let mut model = "gpt-4".to_string();
    let vars = EnvOverrides {
        max_parallel_agents: Some("4".to_string()),
        default_timeout: Some("not a number".to_string()),
        ui_port: Some("9000".to_string()),
        ui_host: Some("0.0.0.0".to_string()),
        ui_enabled: Some("false".to_string()),
        log_level: Some("warn".to_string()),
        log_format: Some("JSON".to_string()),
        default_model: Some("llama3".to_string()),
        default_llm: Some("openai:gpt-4".to_string()),
    };
    let mut provider = "ollama:llama3".to_string();
    ConfigLoader::apply_env_overrides(&mut execution, &mut ui, &mut logging, &mut model, &mut provider, &vars);
    assert_eq!(provider, "openai:gpt-4");
    assert_eq!(execution.max_parallel_agents, 4);
    assert_eq!(execution.default_timeout, Duration::from_secs(300));
    assert_eq!(ui.port, 9000);
    assert_eq!(ui.host, "0.0.0.0");
    assert!(!ui.enabled);
    assert_eq!(logging.level, "warn");
    assert_eq!(logging.format, LogFormat::Json);
    assert_eq!(model, "llama3");
    let none = EnvOverrides {
        max_parallel_agents: None,
        default_timeout: None,
        ui_port: Some("-1".to_string()),
        ui_host: None,
        ui_enabled: Some("TRUE".to_string()),
        log_level: None,
        log_format: Some("xml".to_string()),
        default_model: None,
        default_llm: None,
    };
    ConfigLoader::apply_env_overrides(&mut execution, &mut ui, &mut logging, &mut model, &mut provider, &none);
    assert_eq!(provider, "openai:gpt-4");
    assert_eq!(ui.port, 9000);
    assert!(!ui.enabled);
    assert_eq!(logging.format, LogFormat::Json);
}

#[test]
fn config_paths() {
    assert_eq!(ConfigLoader::project_config_path(), ".rustforge/config.toml");
    assert_eq!(ConfigLoader::user_config_path("/home/ann"), "/home/ann/.rustforge/config.toml");
    assert_eq!(ConfigLoader::user_config_path("/home/ann/"), "/home/ann/.rustforge/config.toml");
}

#[test]
fn test_server_module_exists() {
    // The HTTP interface's logic lives in the library's `api` module.
    let error = rustforge::api::error::ApiError::not_found("Workflow", "w");
    assert_eq!(error.status_code(), 404);
    assert!(true);
}

#[test]
fn test_cli_parse_run_command() {
    let cli = Cli::try_parse_from(&args(&["rustforge", "run", "workflow.yaml"])).unwrap();
    match cli.command {
        Commands::Run { workflow, inputs, resume } => {
            assert_eq!(workflow, "workflow.yaml");
            assert_eq!(inputs, None);
            assert!(!resume);
        }
        _ => panic!("Expected Run command"),
    }
}

#[test]
fn test_cli_parse_run_with_inputs() {
    let cli = Cli::try_parse_from(&args(&["rustforge", "run", "workflow.yaml", "--inputs", r#"{"key":"value"}"#])).unwrap();
    match cli.command {
        Commands::Run { workflow, inputs, resume } => {
            assert_eq!(workflow, "workflow.yaml");
            assert_eq!(inputs, Some(r#"{"key":"value"}"#.to_string()));
            assert!(!resume);
        }
        _ => panic!("Expected Run command"),
    }
}

#[test]
fn test_cli_parse_validate_command() {
    let cli = Cli::try_parse_from(&args(&["rustforge", "validate", "workflow.yaml"])).unwrap();
    match cli.command {
        Commands::Validate { workflow } => assert_eq!(workflow, "workflow.yaml"),
        _ => panic!("Expected Validate command"),
    }
}

#[test]
fn test_cli_parse_init_command() {
    let cli = Cli::try_parse_from(&args(&["rustforge", "init"])).unwrap();
    match cli.command {
        Commands::Init { path } => assert_eq!(path, None),
        _ => panic!("Expected Init command"),
    }
}

#[test]
fn test_cli_parse_config_show() {
    let cli = Cli::try_parse_from(&args(&["rustforge", "config", "show"])).unwrap();
    match cli.command {
        Commands::Config { command: ConfigCommands::Show } => {}
        _ => panic!("Expected Config Show command"),
    }
}

#[test]
fn test_cli_parse_list_command() {
    let cli = Cli::try_parse_from(&args(&["rustforge", "list"])).unwrap();
    match cli.command {
        Commands::List => {}
        _ => panic!("Expected List command"),
    }
}

#[test]
fn cli_options_and_errors() {
    let cli = Cli::try_parse_from(&args(&["rustforge", "run", "-r", "-i{}", "w.yaml"])).unwrap();
    match cli.command {
        Commands::Run { workflow, inputs, resume } => {
            assert_eq!(workflow, "w.yaml");
            assert_eq!(inputs.as_deref(), Some("{}"));
            assert!(resume);
        }
        _ => panic!("Expected Run command"),
    }
    let cli = Cli::try_parse_from(&args(&["rustforge", "run", "--inputs=a=b", "w.yaml"])).unwrap();
    assert!(matches!(cli.command, Commands::Run { inputs: Some(ref s), .. } if s == "a=b"));
    let cli = Cli::try_parse_from(&args(&["rustforge", "config", "set", "ui.port", "8080"])).unwrap();
    assert!(matches!(cli.command, Commands::Config { command: ConfigCommands::SetValue { ref key, ref value } } if key == "ui.port" && value == "8080"));
    assert!(matches!(Cli::try_parse_from(&args(&["rustforge"])), Err(CliError::MissingCommand)));
    assert!(matches!(Cli::try_parse_from(&args(&["rustforge", "run"])), Err(CliError::MissingArgument(ref a)) if a == "<WORKFLOW>"));
    assert!(matches!(Cli::try_parse_from(&args(&["rustforge", "run", "w", "-r", "--resume"])), Err(CliError::RepeatedOption(_))));
    assert!(matches!(Cli::try_parse_from(&args(&["rustforge", "run", "w", "--inputs"])), Err(CliError::MissingValue(_))));
    assert!(matches!(Cli::try_parse_from(&args(&["rustforge", "list", "x"])), Err(CliError::UnexpectedArgument(ref a)) if a == "x"));
    assert!(matches!(Cli::try_parse_from(&args(&["rustforge", "deploy"])), Err(CliError::UnknownCommand(ref a)) if a == "deploy"));
    assert!(matches!(Cli::try_parse_from(&args(&["rustforge", "init", "--force"])), Err(CliError::UnknownOption(ref a)) if a == "--force"));
    assert!(matches!(Cli::try_parse_from(&args(&["rustforge", "config", "set", "k"])), Err(CliError::MissingArgument(ref a)) if a == "<VALUE>"));
}
