use rustforge::security::audit::AuditLogger;
use rustforge::security::permissions::{PermissionManager, PermissionPolicy};

#[test]
fn test_permission_allow_all() {
    let manager = PermissionManager::allow_all();
    assert!(manager.check_permission("file_system").is_ok());
    assert!(manager.check_permission("shell_executor").is_ok());
    assert!(manager.check_permission("any_tool").is_ok());
}

#[test]
fn test_permission_deny_all() {
    let manager = PermissionManager::deny_all();
    assert!(manager.check_permission("file_system").is_err());
    assert!(manager.check_permission("shell_executor").is_err());
    assert!(manager.check_permission("any_tool").is_err());
}

#[test]
fn test_permission_prompt_all() {
    let manager = PermissionManager::prompt_all();
    // A prompt is granted.
    assert!(manager.check_permission("file_system").is_ok());
    assert!(manager.check_permission("shell_executor").is_ok());
}

#[test]
fn test_permission_tool_specific_policy() {
    let mut manager = PermissionManager::deny_all();
    assert!(manager.check_permission("file_system").is_err());
    manager.set_tool_policy("file_system", PermissionPolicy::Allow);
    assert!(manager.check_permission("file_system").is_ok());
    assert!(manager.check_permission("shell_executor").is_err());
}

#[test]
fn test_permission_override_default() {
    let mut manager = PermissionManager::allow_all();
    assert!(manager.check_permission("dangerous_tool").is_ok());
    manager.set_tool_policy("dangerous_tool", PermissionPolicy::Deny);
    assert!(manager.check_permission("dangerous_tool").is_err());
    assert!(manager.check_permission("safe_tool").is_ok());
}

#[test]
fn test_permission_list_policies() {
    let mut manager = PermissionManager::allow_all();
    manager.set_tool_policy("tool1", PermissionPolicy::Deny);
    manager.set_tool_policy("tool2", PermissionPolicy::Allow);
    manager.set_tool_policy("tool3", PermissionPolicy::Prompt);
    let policies = manager.list_tool_policies();
    assert_eq!(policies.len(), 3);
    assert_eq!(policies.get("tool1"), Some(&PermissionPolicy::Deny));
    assert_eq!(policies.get("tool2"), Some(&PermissionPolicy::Allow));
    assert_eq!(policies.get("tool3"), Some(&PermissionPolicy::Prompt));
}

#[test]
fn test_permission_remove_policy() {
    let mut manager = PermissionManager::deny_all();
    manager.set_tool_policy("file_system", PermissionPolicy::Allow);
    assert!(manager.check_permission("file_system").is_ok());
    assert!(manager.remove_tool_policy("file_system"));
    assert!(manager.check_permission("file_system").is_err());
    assert!(!manager.remove_tool_policy("nonexistent"));
}

#[test]
fn test_permission_clear_policies() {
    let mut manager = PermissionManager::deny_all();
    manager.set_tool_policy("tool1", PermissionPolicy::Allow);
    manager.set_tool_policy("tool2", PermissionPolicy::Allow);
    manager.set_tool_policy("tool3", PermissionPolicy::Allow);
    assert_eq!(manager.list_tool_policies().len(), 3);
    manager.clear_tool_policies();
    assert_eq!(manager.list_tool_policies().len(), 0);
    assert!(manager.check_permission("tool1").is_err());
}

#[test]
fn test_permission_with_audit_logging() {
    let mut manager = PermissionManager::deny_all();
    let mut audit_logger = AuditLogger::new();
    let execution_id: u128 = 42;
    assert!(manager.check_permission("file_system").is_err());
    audit_logger.log_permission_denied(
        execution_id,
        "test_agent".to_string(),
        "file_system".to_string(),
        "/etc/passwd".to_string(),
        "Permission denied by policy".to_string(),
    );
    manager.set_tool_policy("file_system", PermissionPolicy::Allow);
    assert!(manager.check_permission("file_system").is_ok());
    audit_logger.log_permission_granted(
        execution_id,
        "test_agent".to_string(),
        "file_system".to_string(),
        "/home/user".to_string(),
    );
    assert_eq!(audit_logger.query_by_execution(execution_id).len(), 2);
}

#[test]
fn test_permission_default_policy() {
    assert_eq!(PermissionManager::allow_all().default_policy(), PermissionPolicy::Allow);
    assert_eq!(PermissionManager::deny_all().default_policy(), PermissionPolicy::Deny);
    assert_eq!(PermissionManager::prompt_all().default_policy(), PermissionPolicy::Prompt);
}

#[test]
fn test_permission_manager_default() {
    let manager = PermissionManager::default();
    assert_eq!(manager.default_policy(), PermissionPolicy::Prompt);
}

#[test]
fn test_multiple_permission_changes() {
    let mut manager = PermissionManager::allow_all();
    manager.set_tool_policy("test_tool", PermissionPolicy::Deny);
    assert!(manager.check_permission("test_tool").is_err());
    manager.set_tool_policy("test_tool", PermissionPolicy::Allow);
    assert!(manager.check_permission("test_tool").is_ok());
    manager.set_tool_policy("test_tool", PermissionPolicy::Prompt);
    assert!(manager.check_permission("test_tool").is_ok());
    manager.set_tool_policy("test_tool", PermissionPolicy::Deny);
    assert!(manager.check_permission("test_tool").is_err());
}

#[test]
fn test_permission_isolation() {
    let mut manager1 = PermissionManager::deny_all();
    let mut manager2 = PermissionManager::allow_all();
    manager1.set_tool_policy("tool1", PermissionPolicy::Allow);
    manager2.set_tool_policy("tool1", PermissionPolicy::Deny);
    assert!(manager1.check_permission("tool1").is_ok());
    assert!(manager2.check_permission("tool1").is_err());
    assert!(manager1.check_permission("tool2").is_err());
    assert!(manager2.check_permission("tool2").is_ok());
}

#[test]
fn default_policy_survives_every_change() {
    let mut manager = PermissionManager::deny_all();
    manager.set_tool_policy("shell_executor", PermissionPolicy::Allow);
    assert_eq!(manager.default_policy(), PermissionPolicy::Deny);
    manager.remove_tool_policy("shell_executor");
    assert_eq!(manager.default_policy(), PermissionPolicy::Deny);
    manager.set_tool_policy("file_system", PermissionPolicy::Prompt);
    manager.clear_tool_policies();
    assert_eq!(manager.default_policy(), PermissionPolicy::Deny);
    assert!(manager.check_permission("file_system").is_err());
}
