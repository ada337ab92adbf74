use rustforge::agents::registry::AgentRegistry;
use rustforge::agents::types::AgentDefinition;
use rustforge::error::Error;
use rustforge::tools::registry::ToolRegistry;

fn create_test_agent(id: &str, agent_type: &str) -> AgentDefinition {
    AgentDefinition::new(id, agent_type)
}

fn register(registry: &mut AgentRegistry<AgentDefinition>, agent: AgentDefinition) -> Result<(), Error> {
    let id = agent.id.clone();
    let agent_type = agent.agent_type.clone();
    registry.register(&id, &agent_type, agent)
}

#[test]
fn test_register_agent() {
    let mut registry = AgentRegistry::new();
    let agent = create_test_agent("agent1", "research");

    assert!(register(&mut registry, agent).is_ok());
    assert_eq!(registry.len(), 1);
    assert!(registry.contains("agent1"));
}

#[test]
fn test_register_duplicate_agent() {
    let mut registry = AgentRegistry::new();
    let agent1 = create_test_agent("agent1", "research");
    let agent2 = create_test_agent("agent1", "analysis");

    register(&mut registry, agent1).unwrap();
    let result = register(&mut registry, agent2);

    assert!(result.is_err());
    assert_eq!(registry.len(), 1);
    match result {
        Err(Error::InvalidWorkflowDefinition { reason }) => {
            assert_eq!(reason, "Agent with id 'agent1' is already registered");
        }
        _ => panic!("expected a refusal"),
    }
    assert_eq!(registry.get("agent1").unwrap().agent_type, "research");
}

#[test]
fn test_get_agent() {
    let mut registry = AgentRegistry::new();
    let agent = create_test_agent("agent1", "research");
    register(&mut registry, agent).unwrap();

    let retrieved = registry.get("agent1");
    assert!(retrieved.is_some());
    assert_eq!(retrieved.unwrap().id, "agent1");
}

#[test]
fn test_get_nonexistent_agent() {
    let registry: AgentRegistry<AgentDefinition> = AgentRegistry::new();
    assert!(registry.get("nonexistent").is_none());
}

#[test]
fn test_unregister_agent() {
    let mut registry = AgentRegistry::new();
    let agent = create_test_agent("agent1", "research");
    register(&mut registry, agent).unwrap();

    let removed = registry.unregister("agent1");
    assert!(removed.is_some());
    assert_eq!(registry.len(), 0);
    assert!(!registry.contains("agent1"));
    assert!(registry.unregister("agent1").is_none());
}

#[test]
fn test_agent_ids() {
    let mut registry = AgentRegistry::new();
    register(&mut registry, create_test_agent("agent1", "research")).unwrap();
    register(&mut registry, create_test_agent("agent2", "analysis")).unwrap();

    let ids = registry.agent_ids();
    assert_eq!(ids.len(), 2);
    assert!(ids.contains(&"agent1".to_string()));
    assert!(ids.contains(&"agent2".to_string()));
}

#[test]
fn test_find_by_type() {
    let mut registry = AgentRegistry::new();
    register(&mut registry, create_test_agent("agent1", "research")).unwrap();
    register(&mut registry, create_test_agent("agent2", "research")).unwrap();
    register(&mut registry, create_test_agent("agent3", "analysis")).unwrap();

    let research_agents = registry.find_by_type("research");
    assert_eq!(research_agents.len(), 2);
    assert_eq!(research_agents[0].id, "agent1");
    assert_eq!(research_agents[1].id, "agent2");

    let analysis_agents = registry.find_by_type("analysis");
    assert_eq!(analysis_agents.len(), 1);
    assert_eq!(analysis_agents[0].id, "agent3");

    assert!(registry.find_by_type("writing").is_empty());
}

#[test]
fn test_find_capable() {
    let mut registry = AgentRegistry::new();
    register(&mut registry, create_test_agent("agent1", "research")).unwrap();
    register(&mut registry, create_test_agent("agent2", "analysis")).unwrap();

    // An agent that can handle any task type accepts every task.
    let capable = registry.find_capable(|_agent: &AgentDefinition| true);
    assert_eq!(capable.len(), 2);
}

#[test]
fn find_capable_keeps_only_accepted_agents() {
    let mut registry = AgentRegistry::new();
    register(&mut registry, create_test_agent("agent1", "research")).unwrap();
    register(&mut registry, create_test_agent("agent2", "analysis")).unwrap();
    register(&mut registry, create_test_agent("agent3", "research")).unwrap();

    let capable = registry.find_capable(|agent: &AgentDefinition| agent.id != "agent2");
    assert_eq!(capable.len(), 2);
    assert_eq!(capable[0].id, "agent1");
    assert_eq!(capable[1].id, "agent3");
    assert!(registry.find_capable(|_agent: &AgentDefinition| false).is_empty());
}

#[test]
fn test_clear_registry() {
    let mut registry = AgentRegistry::new();
    register(&mut registry, create_test_agent("agent1", "research")).unwrap();
    register(&mut registry, create_test_agent("agent2", "analysis")).unwrap();

    assert_eq!(registry.len(), 2);
    registry.clear();
    assert_eq!(registry.len(), 0);
    assert!(registry.is_empty());
}

#[test]
fn test_default_registry() {
    let registry: AgentRegistry<AgentDefinition> = AgentRegistry::default();
    assert!(registry.is_empty());
}

struct MockTool {
    name: String,
}

impl MockTool {
    fn new(name: &str) -> Self {
        Self { name: name.to_string() }
    }
}

fn register_tool(registry: &mut ToolRegistry<MockTool>, tool: MockTool) -> Result<(), Error> {
    let name = tool.name.clone();
    registry.register(&name, tool)
}

#[test]
fn test_register_and_get_tool() {
    let mut registry = ToolRegistry::new();
    let tool = MockTool::new("test_tool");

    register_tool(&mut registry, tool).unwrap();

    let retrieved = registry.get("test_tool").unwrap();
    assert_eq!(retrieved.name, "test_tool");
}

#[test]
fn test_duplicate_registration() {
    let mut registry = ToolRegistry::new();
    let tool1 = MockTool::new("test_tool");
    let tool2 = MockTool::new("test_tool");

    register_tool(&mut registry, tool1).unwrap();
    let result = register_tool(&mut registry, tool2);

    assert!(result.is_err());
    match result {
        Err(Error::Internal(m)) => assert_eq!(m, "Tool 'test_tool' is already registered"),
        _ => panic!("expected a refusal"),
    }
}

#[test]
fn test_contains() {
    let mut registry = ToolRegistry::new();
    let tool = MockTool::new("test_tool");

    assert!(!registry.contains("test_tool"));
    register_tool(&mut registry, tool).unwrap();
    assert!(registry.contains("test_tool"));
}

#[test]
fn test_list_tools() {
    let mut registry = ToolRegistry::new();
    let tool1 = MockTool::new("tool1");
    let tool2 = MockTool::new("tool2");

    register_tool(&mut registry, tool1).unwrap();
    register_tool(&mut registry, tool2).unwrap();

    let tools = registry.list_tools();
    assert_eq!(tools.len(), 2);
    assert!(tools.contains(&"tool1".to_string()));
    assert!(tools.contains(&"tool2".to_string()));
}

#[test]
fn test_unregister() {
    let mut registry = ToolRegistry::new();
    let tool = MockTool::new("test_tool");

    register_tool(&mut registry, tool).unwrap();
    assert!(registry.contains("test_tool"));

    registry.unregister("test_tool").unwrap();
    assert!(!registry.contains("test_tool"));
}

#[test]
fn test_unregister_nonexistent() {
    let mut registry: ToolRegistry<MockTool> = ToolRegistry::new();
    let result = registry.unregister("nonexistent");
    assert!(result.is_err());
    match result {
        Err(Error::Internal(m)) => assert_eq!(m, "Tool 'nonexistent' not found"),
        _ => panic!("expected an error"),
    }
}

#[test]
fn test_count() {
    let mut registry = ToolRegistry::new();
    assert_eq!(registry.count(), 0);

    let tool1 = MockTool::new("tool1");
    let tool2 = MockTool::new("tool2");

    register_tool(&mut registry, tool1).unwrap();
    assert_eq!(registry.count(), 1);

    register_tool(&mut registry, tool2).unwrap();
    assert_eq!(registry.count(), 2);

    registry.unregister("tool1").unwrap();
    assert_eq!(registry.count(), 1);
}

enum BuiltIn {
    Files(rustforge::tools::filesystem::FileSystemTool),
    Shell(rustforge::tools::shell::ShellExecutorTool),
}

impl BuiltIn {
    fn name(&self) -> &str {
        match self {
            BuiltIn::Files(t) => t.name(),
            BuiltIn::Shell(t) => t.name(),
        }
    }
}

fn register_builtin(registry: &mut ToolRegistry<BuiltIn>, tool: BuiltIn) -> Result<(), Error> {
    let name = tool.name().to_string();
    registry.register(&name, tool)
}

fn files_tool() -> BuiltIn {
    BuiltIn::Files(rustforge::tools::filesystem::FileSystemTool::new(vec![]))
}

#[test]
fn test_tool_registry_operations() {
    let mut registry = ToolRegistry::new();
    let shell = rustforge::tools::shell::ShellExecutorTool::new(vec![], std::time::Duration::from_secs(30));
    register_builtin(&mut registry, files_tool()).unwrap();
    register_builtin(&mut registry, BuiltIn::Shell(shell)).unwrap();
    assert!(registry.contains("file_system"));
    assert!(registry.contains("shell_executor"));
    let tools = registry.list_tools();
    assert!(tools.contains(&"file_system".to_string()));
    assert!(tools.contains(&"shell_executor".to_string()));
    let tool = registry.get("file_system");
    assert!(tool.is_some());
    assert_eq!(tool.unwrap().name(), "file_system");
    assert_eq!(registry.count(), 2);
}

#[test]
fn test_duplicate_tool_registration() {
    let mut registry = ToolRegistry::new();
    register_builtin(&mut registry, files_tool()).unwrap();
    let result = register_builtin(&mut registry, files_tool());
    assert!(result.is_err());
}

#[test]
fn test_tool_unregistration() {
    let mut registry = ToolRegistry::new();
    register_builtin(&mut registry, files_tool()).unwrap();
    assert!(registry.contains("file_system"));
    registry.unregister("file_system").unwrap();
    assert!(!registry.contains("file_system"));
}

#[test]
fn test_get_nonexistent_tool() {
    let registry: ToolRegistry<BuiltIn> = ToolRegistry::new();
    assert!(registry.get("nonexistent").is_none());
}

#[test]
fn test_unregister_nonexistent_tool() {
    let mut registry: ToolRegistry<BuiltIn> = ToolRegistry::new();
    assert!(registry.unregister("nonexistent").is_err());
}
