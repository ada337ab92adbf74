use rustforge::api::executions::Timestamp;
use rustforge::error::Error;
use rustforge::json::JsonValue;
use rustforge::security::audit::{AuditAction, AuditLogger, AuditResult};
use rustforge::security::isolation::{IsolationConfig, ProcessIsolation, ProcessOutcome};
use rustforge::security::permissions::{PermissionManager, PermissionPolicy};

#[test]
fn test_allow_all() {
    let manager = PermissionManager::allow_all();
    assert_eq!(manager.default_policy(), PermissionPolicy::Allow);
    assert!(manager.check_permission("any_tool").is_ok());
}

#[test]
fn test_deny_all() {
    let manager = PermissionManager::deny_all();
    assert_eq!(manager.default_policy(), PermissionPolicy::Deny);
    assert!(manager.check_permission("any_tool").is_err());
}

#[test]
fn test_prompt_all() {
    let manager = PermissionManager::prompt_all();
    assert_eq!(manager.default_policy(), PermissionPolicy::Prompt);
    assert!(manager.check_permission("any_tool").is_ok());
}

#[test]
fn test_set_tool_policy() {
    let mut manager = PermissionManager::deny_all();
    assert!(manager.check_permission("test_tool").is_err());
    manager.set_tool_policy("test_tool", PermissionPolicy::Allow);
    assert!(manager.check_permission("test_tool").is_ok());
    assert!(manager.check_permission("other_tool").is_err());
}

#[test]
fn test_get_tool_policy() {
    let mut manager = PermissionManager::allow_all();
    assert_eq!(manager.get_tool_policy("any_tool"), PermissionPolicy::Allow);
    manager.set_tool_policy("special_tool", PermissionPolicy::Deny);
    assert_eq!(manager.get_tool_policy("special_tool"), PermissionPolicy::Deny);
}

#[test]
fn test_remove_tool_policy() {
    let mut manager = PermissionManager::allow_all();
    manager.set_tool_policy("test_tool", PermissionPolicy::Deny);
    assert_eq!(manager.get_tool_policy("test_tool"), PermissionPolicy::Deny);
    assert!(manager.remove_tool_policy("test_tool"));
    assert_eq!(manager.get_tool_policy("test_tool"), PermissionPolicy::Allow);
    assert!(!manager.remove_tool_policy("nonexistent"));
}

#[test]
fn test_list_tool_policies() {
    let mut manager = PermissionManager::allow_all();
    manager.set_tool_policy("tool1", PermissionPolicy::Deny);
    manager.set_tool_policy("tool2", PermissionPolicy::Allow);
    let policies = manager.list_tool_policies();
    assert_eq!(policies.len(), 2);
    assert_eq!(policies.get("tool1"), Some(&PermissionPolicy::Deny));
    assert_eq!(policies.get("tool2"), Some(&PermissionPolicy::Allow));
}

#[test]
fn test_clear_tool_policies() {
    let mut manager = PermissionManager::allow_all();
    manager.set_tool_policy("tool1", PermissionPolicy::Deny);
    manager.set_tool_policy("tool2", PermissionPolicy::Deny);
    assert_eq!(manager.list_tool_policies().len(), 2);
    manager.clear_tool_policies();
    assert_eq!(manager.list_tool_policies().len(), 0);
}

#[test]
fn test_default_permission_manager() {
    let manager = PermissionManager::default();
    assert_eq!(manager.default_policy(), PermissionPolicy::Prompt);
}

#[test]
fn permission_denied_message_names_the_tool() {
    let manager = PermissionManager::deny_all();
    match manager.check_permission("shell") {
        Err(Error::Internal(m)) => assert_eq!(m, "Permission denied: tool 'shell' is not allowed"),
        other => panic!("unexpected {:?}", other),
    }
}

#[test]
fn setting_a_policy_twice_keeps_the_last() {
    let mut manager = PermissionManager::allow_all();
    manager.set_tool_policy("t", PermissionPolicy::Deny);
    manager.set_tool_policy("t", PermissionPolicy::Prompt);
    assert_eq!(manager.get_tool_policy("t"), PermissionPolicy::Prompt);
    assert_eq!(manager.list_tool_policies().len(), 1);
    assert!(manager.check_permission("t").is_ok());
}

#[test]
fn removed_policy_reverts_to_deny_default() {
    let mut manager = PermissionManager::deny_all();
    manager.set_tool_policy("t", PermissionPolicy::Allow);
    assert!(manager.remove_tool_policy("t"));
    assert_eq!(manager.get_tool_policy("t"), PermissionPolicy::Deny);
    assert!(manager.check_permission("t").is_err());
}

#[test]
fn test_validate_command_allowed() {
    let allowed = vec!["ls".to_string(), "cat".to_string()];
    assert!(ProcessIsolation::validate_command("ls", &allowed).is_ok());
    assert!(ProcessIsolation::validate_command("cat", &allowed).is_ok());
}

#[test]
fn test_validate_command_denied() {
    let allowed = vec!["ls".to_string(), "cat".to_string()];
    assert!(ProcessIsolation::validate_command("rm", &allowed).is_err());
}

#[test]
fn test_validate_command_empty_list() {
    let allowed = vec![];
    assert!(ProcessIsolation::validate_command("anything", &allowed).is_ok());
}

#[test]
fn validate_command_denial_message() {
    let allowed = vec!["ls".to_string()];
    match ProcessIsolation::validate_command("ls -la", &allowed) {
        Err(Error::Internal(m)) => assert_eq!(m, "Command 'ls -la' is not in the allowed list"),
        other => panic!("unexpected {:?}", other),
    }
}

#[test]
fn test_validate_path_empty_list() {
    let allowed: Vec<Option<String>> = vec![];
    assert!(ProcessIsolation::validate_path(".", Err("no such file".to_string()), &allowed).is_ok());
}

#[test]
fn validate_path_within_and_outside() {
    let allowed = vec![Some("/tmp".to_string()), None];
    assert!(ProcessIsolation::validate_path("/tmp/a", Ok("/tmp/a".to_string()), &allowed).is_ok());
    match ProcessIsolation::validate_path("/etc/passwd", Ok("/etc/passwd".to_string()), &allowed) {
        Err(Error::Internal(m)) => assert_eq!(m, "Path \"/etc/passwd\" is outside allowed directories"),
        other => panic!("unexpected {:?}", other),
    }
    // Components are compared whole: /tmpx is not within /tmp.
    assert!(ProcessIsolation::validate_path("/tmpx", Ok("/tmpx".to_string()), &allowed).is_err());
    match ProcessIsolation::validate_path("x", Err("gone".to_string()), &allowed) {
        Err(Error::Internal(m)) => assert_eq!(m, "Failed to canonicalize path: gone"),
        other => panic!("unexpected {:?}", other),
    }
}

#[test]
fn isolation_defaults_and_outcomes() {
    let config = IsolationConfig::default();
    assert_eq!(config.timeout.as_secs(), 300);
    assert!(!config.clear_env);
    assert!(config.working_dir.is_none());
    let timed_out = ProcessIsolation::outcome(ProcessOutcome::TimedOut).unwrap();
    assert!(timed_out.timed_out);
    assert_eq!(timed_out.stderr, "Process execution timed out");
    assert_eq!(timed_out.exit_code, None);
    let finished = ProcessIsolation::outcome(ProcessOutcome::Finished {
        stdout: "hello\n".to_string(),
        stderr: String::new(),
        exit_code: Some(0),
    })
    .unwrap();
    assert_eq!(finished.stdout, "hello\n");
    assert_eq!(finished.exit_code, Some(0));
    match ProcessIsolation::outcome(ProcessOutcome::Failed("not found".to_string())) {
        Err(Error::Internal(m)) => assert_eq!(m, "Process execution failed: not found"),
        other => panic!("unexpected {:?}", other),
    }
    let (shell, args) = ProcessIsolation::shell_invocation("echo hi");
    assert_eq!(shell, "sh");
    assert_eq!(args, vec!["-c".to_string(), "echo hi".to_string()]);
}

#[test]
fn audit_log_queries() {
    let mut logger = AuditLogger::new();
    logger.log_tool_execution(
        7,
        "agent1".to_string(),
        "file_system".to_string(),
        "read".to_string(),
        JsonValue::Null,
        AuditResult::Success,
    );
    logger.log_permission_denied(7, "agent2".to_string(), "shell".to_string(), "rm -rf /".to_string(), "Dangerous command".to_string());
    logger.log_network_request(8, "agent1".to_string(), "https://example.com".to_string(), "GET".to_string(), AuditResult::Failed { error: "timeout".to_string() });
    assert_eq!(logger.count(), 3);
    assert_eq!(logger.query_by_execution(7).len(), 2);
    assert_eq!(logger.query_by_execution(8).len(), 1);
    let agent1 = logger.query_by_agent("agent1");
    assert_eq!(agent1.len(), 2);
    assert!(agent1.iter().all(|l| l.agent_id == "agent1"));
    let denied = logger.query_by_agent("agent2");
    match &denied[0].action {
        AuditAction::PermissionDenied { tool, scope, reason } => {
            assert_eq!(tool, "shell");
            assert_eq!(scope, "rm -rf /");
            assert_eq!(reason, "Dangerous command");
        }
        other => panic!("unexpected {:?}", other),
    }
    assert!(matches!(denied[0].result, AuditResult::Denied { .. }));
    logger.clear();
    assert_eq!(logger.count(), 0);
}

fn now_stamp() -> Timestamp {
    let t = chrono::Utc::now();
    Timestamp { secs: t.timestamp(), nanos: t.timestamp_subsec_nanos() }
}

#[test]
fn test_log_tool_execution() {
    let mut logger = AuditLogger::new();
    let execution_id: u128 = 0x1234;
    let params = JsonValue::Object(vec![("path".to_string(), JsonValue::String("/test.txt".to_string()))]);
    logger.log_tool_execution(
        execution_id,
        "agent1".to_string(),
        "file_system".to_string(),
        "read".to_string(),
        params,
        AuditResult::Success,
    );
    assert_eq!(logger.count(), 1);
    let logs = logger.query_by_execution(execution_id);
    assert_eq!(logs.len(), 1);
    assert_eq!(logs[0].agent_id, "agent1");
}

#[test]
fn test_log_file_access() {
    let mut logger = AuditLogger::new();
    logger.log_file_access(1, "agent1".to_string(), "/test.txt".to_string(), "read".to_string(), AuditResult::Success);
    let logs = logger.get_all();
    assert_eq!(logs.len(), 1);
    match &logs[0].action {
        AuditAction::FileAccessed { path, operation } => {
            assert_eq!(path, "/test.txt");
            assert_eq!(operation, "read");
        }
        _ => panic!("Expected FileAccessed action"),
    }
}

#[test]
fn test_log_network_request() {
    let mut logger = AuditLogger::new();
    logger.log_network_request(1, "agent1".to_string(), "https://example.com".to_string(), "GET".to_string(), AuditResult::Success);
    let logs = logger.get_all();
    assert_eq!(logs.len(), 1);
    match &logs[0].action {
        AuditAction::NetworkRequest { url, method } => {
            assert_eq!(url, "https://example.com");
            assert_eq!(method, "GET");
        }
        _ => panic!("Expected NetworkRequest action"),
    }
}

#[test]
fn test_log_permission_granted() {
    let mut logger = AuditLogger::new();
    logger.log_permission_granted(1, "agent1".to_string(), "file_system".to_string(), "/home/user".to_string());
    let logs = logger.get_all();
    assert_eq!(logs.len(), 1);
    match &logs[0].action {
        AuditAction::PermissionGranted { tool, scope } => {
            assert_eq!(tool, "file_system");
            assert_eq!(scope, "/home/user");
        }
        _ => panic!("Expected PermissionGranted action"),
    }
    assert!(matches!(logs[0].result, AuditResult::Success));
}

#[test]
fn test_log_permission_denied() {
    let mut logger = AuditLogger::new();
    logger.log_permission_denied(1, "agent1".to_string(), "shell".to_string(), "rm -rf /".to_string(), "Dangerous command".to_string());
    let logs = logger.get_all();
    assert_eq!(logs.len(), 1);
    match &logs[0].action {
        AuditAction::PermissionDenied { tool, scope, reason } => {
            assert_eq!(tool, "shell");
            assert_eq!(scope, "rm -rf /");
            assert_eq!(reason, "Dangerous command");
        }
        _ => panic!("Expected PermissionDenied action"),
    }
}

#[test]
fn test_query_by_agent() {
    let mut logger = AuditLogger::new();
    logger.log_tool_execution(1, "agent1".to_string(), "tool1".to_string(), "op1".to_string(), JsonValue::Object(vec![]), AuditResult::Success);
    logger.log_tool_execution(1, "agent2".to_string(), "tool2".to_string(), "op2".to_string(), JsonValue::Object(vec![]), AuditResult::Success);
    let agent1_logs = logger.query_by_agent("agent1");
    assert_eq!(agent1_logs.len(), 1);
    assert_eq!(agent1_logs[0].agent_id, "agent1");
    let agent2_logs = logger.query_by_agent("agent2");
    assert_eq!(agent2_logs.len(), 1);
    assert_eq!(agent2_logs[0].agent_id, "agent2");
}

#[test]
fn test_query_by_time_range() {
    let mut logger = AuditLogger::new();
    let start = now_stamp();
    logger.log_tool_execution(1, "agent1".to_string(), "tool1".to_string(), "op1".to_string(), JsonValue::Object(vec![]), AuditResult::Success);
    let end = now_stamp();
    assert_eq!(logger.query_by_time_range(start, end).len(), 1);
    let before = Timestamp { secs: start.secs - 100, nanos: 0 };
    let earlier = Timestamp { secs: start.secs - 50, nanos: 0 };
    assert!(logger.query_by_time_range(before, earlier).is_empty());
}

#[test]
fn test_clear() {
    let mut logger = AuditLogger::new();
    logger.log_tool_execution(1, "agent1".to_string(), "tool1".to_string(), "op1".to_string(), JsonValue::Object(vec![]), AuditResult::Success);
    assert_eq!(logger.count(), 1);
    logger.clear();
    assert_eq!(logger.count(), 0);
}

#[test]
fn test_audit_result_variants() {
    let mut logger = AuditLogger::new();
    logger.log_tool_execution(1, "agent1".to_string(), "tool1".to_string(), "op1".to_string(), JsonValue::Object(vec![]), AuditResult::Success);
    logger.log_tool_execution(
        1,
        "agent1".to_string(),
        "tool2".to_string(),
        "op2".to_string(),
        JsonValue::Object(vec![]),
        AuditResult::Failed { error: "Connection timeout".to_string() },
    );
    logger.log_tool_execution(
        1,
        "agent1".to_string(),
        "tool3".to_string(),
        "op3".to_string(),
        JsonValue::Object(vec![]),
        AuditResult::Denied { reason: "Insufficient permissions".to_string() },
    );
    let logs = logger.get_all();
    assert_eq!(logs.len(), 3);
    assert!(matches!(logs[0].result, AuditResult::Success));
    assert!(matches!(logs[1].result, AuditResult::Failed { .. }));
    assert!(matches!(logs[2].result, AuditResult::Denied { .. }));
}
