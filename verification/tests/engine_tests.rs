use std::sync::Arc;
use std::time::Duration;
use rustforge::engine::events::{AgentEvent, EventBus};
use rustforge::engine::dag::dependency_order;
use rustforge::engine::executor::SequentialExecutor;
use rustforge::engine::interpolation::{VariableInterpolator, levenshtein_distance};
use rustforge::engine::merge::{MergeStrategy, merge_results};
use rustforge::engine::parallel::ParallelExecutor;
use rustforge::engine::parser::WorkflowParser;
use rustforge::engine::types::{AgentConfig, ExecutionContext, ExecutionMode, WorkflowDefinition};
use rustforge::engine::unified_executor::WorkflowExecutor;
use rustforge::error::Error;
use rustforge::json::{JsonValue, to_json_text};

fn text(s: &str) -> JsonValue {
    JsonValue::String(s.to_string())
}

fn number(s: &str) -> JsonValue {
    JsonValue::Number(s.to_string())
}

fn object(members: Vec<(&str, JsonValue)>) -> JsonValue {
    JsonValue::Object(members.into_iter().map(|(k, v)| (k.to_string(), v)).collect())
}

fn agent(id: &str, task: &str, depends_on: &[&str]) -> AgentConfig {
    AgentConfig {
        id: id.to_string(),
        agent_type: "TestAgent".to_string(),
        task: task.to_string(),
        depends_on: depends_on.iter().map(|s| s.to_string()).collect(),
        config: vec![],
    }
}

fn workflow(name: &str, mode: ExecutionMode, agents: Vec<AgentConfig>) -> WorkflowDefinition {
    WorkflowDefinition { name: name.to_string(), mode, agents, inputs: None }
}

#[test]
fn test_interpolate_simple_variable() {
    let mut context = ExecutionContext::new("test-workflow".to_string());
    context.set_value("input.name", text("Alice"));
    let interpolator = VariableInterpolator::new(&context);
    let result = interpolator.interpolate("Hello {input.name}!").unwrap();
    assert_eq!(result, "Hello Alice!");
}

#[test]
fn test_interpolate_multiple_variables() {
    let mut context = ExecutionContext::new("test-workflow".to_string());
    context.set_value("input.name", text("Alice"));
    context.set_value("input.age", number("30"));
    let interpolator = VariableInterpolator::new(&context);
    let result = interpolator.interpolate("Name: {input.name}, Age: {input.age}").unwrap();
    assert_eq!(result, "Name: Alice, Age: 30");
}

#[test]
fn test_interpolate_agent_output() {
    let mut context = ExecutionContext::new("test-workflow".to_string());
    context.set_value("agent1.output", text("Task completed"));
    let interpolator = VariableInterpolator::new(&context);
    let result = interpolator.interpolate("Result: {agent1.output}").unwrap();
    assert_eq!(result, "Result: Task completed");
}

#[test]
fn test_interpolate_nested_json() {
    let mut context = ExecutionContext::new("test-workflow".to_string());
    context.set_value(
        "agent1.output",
        object(vec![("data", object(vec![("count", number("42"))])), ("status", text("success"))]),
    );
    let interpolator = VariableInterpolator::new(&context);
    let result = interpolator.interpolate("Count: {agent1.output.data.count}").unwrap();
    assert_eq!(result, "Count: 42");
}

#[test]
fn test_interpolate_no_variables() {
    let context = ExecutionContext::new("test-workflow".to_string());
    let interpolator = VariableInterpolator::new(&context);
    let result = interpolator.interpolate("No variables here").unwrap();
    assert_eq!(result, "No variables here");
}

#[test]
fn test_missing_variable_with_suggestions() {
    let mut context = ExecutionContext::new("test-workflow".to_string());
    context.set_value("input.username", text("alice"));
    context.set_value("input.password", text("secret"));
    let interpolator = VariableInterpolator::new(&context);
    let result = interpolator.interpolate("Hello {input.usernme}!");
    assert!(result.is_err());
    match result {
        Err(Error::VariableNotFound { variable, suggestions }) => {
            assert_eq!(variable, "input.usernme");
            assert!(suggestions.contains(&"input.username".to_string()));
        }
        _ => panic!("Expected VariableNotFound error"),
    }
}

#[test]
fn test_missing_variable_no_suggestions() {
    let context = ExecutionContext::new("test-workflow".to_string());
    let interpolator = VariableInterpolator::new(&context);
    let result = interpolator.interpolate("Hello {nonexistent.var}!");
    assert!(result.is_err());
    match result {
        Err(Error::VariableNotFound { variable, .. }) => assert_eq!(variable, "nonexistent.var"),
        _ => panic!("Expected VariableNotFound error"),
    }
}

#[test]
fn test_interpolate_with_special_characters() {
    let mut context = ExecutionContext::new("test-workflow".to_string());
    context.set_value("input.message", text("Hello, World!"));
    let interpolator = VariableInterpolator::new(&context);
    let result = interpolator.interpolate("Message: {input.message} - Done.").unwrap();
    assert_eq!(result, "Message: Hello, World! - Done.");
}

#[test]
fn test_interpolate_boolean_and_null() {
    let mut context = ExecutionContext::new("test-workflow".to_string());
    context.set_value("input.enabled", JsonValue::Bool(true));
    context.set_value("input.disabled", JsonValue::Bool(false));
    context.set_value("input.empty", JsonValue::Null);
    let interpolator = VariableInterpolator::new(&context);
    let result = interpolator
        .interpolate("Enabled: {input.enabled}, Disabled: {input.disabled}, Empty: {input.empty}")
        .unwrap();
    assert_eq!(result, "Enabled: true, Disabled: false, Empty: null");
}

#[test]
fn test_interpolate_array_indexing() {
    let mut context = ExecutionContext::new("test-workflow".to_string());
    context.set_value(
        "agent1.output",
        object(vec![
            ("items", JsonValue::Array(vec![text("first"), text("second"), text("third")])),
            ("nested", object(vec![("list", JsonValue::Array(vec![number("10"), number("20"), number("30")]))])),
        ]),
    );
    let interpolator = VariableInterpolator::new(&context);
    let result = interpolator.interpolate("Item: {agent1.output.items.0}").unwrap();
    assert_eq!(result, "Item: first");
    let result = interpolator.interpolate("Value: {agent1.output.nested.list.1}").unwrap();
    assert_eq!(result, "Value: 20");
}

#[test]
fn test_interpolate_multiple_missing_variables() {
    let mut context = ExecutionContext::new("test-workflow".to_string());
    context.set_value("input.name", text("Alice"));
    let interpolator = VariableInterpolator::new(&context);
    let result = interpolator.interpolate("Hello {input.name}, your age is {input.age} and city is {input.city}");
    assert!(result.is_err());
    match result {
        Err(Error::VariableNotFound { variable, .. }) => {
            assert!(variable.contains("Multiple variables not found"));
            assert!(variable.contains("input.age"));
            assert!(variable.contains("input.city"));
        }
        _ => panic!("Expected VariableNotFound error with multiple variables"),
    }
}

#[test]
fn interpolation_renders_objects_as_compact_json() {
    let mut context = ExecutionContext::new("w".to_string());
    context.set_value("a", object(vec![("k", text("v\"q")), ("n", JsonValue::Array(vec![number("1"), JsonValue::Null]))]));
    let interpolator = VariableInterpolator::new(&context);
    assert_eq!(interpolator.interpolate("{a}").unwrap(), r#"{"k":"v\"q","n":[1,null]}"#);
    // Braces that do not enclose a variable path are kept as they are.
    assert_eq!(interpolator.interpolate("{ a } {}").unwrap(), "{ a } {}");
}

#[test]
fn levenshtein_examples() {
    assert_eq!(levenshtein_distance("kitten", "sitting"), 3);
    assert_eq!(levenshtein_distance("", "abc"), 3);
    assert_eq!(levenshtein_distance("same", "same"), 0);
    assert_eq!(levenshtein_distance("input.usernme", "input.username"), 1);
    assert_eq!(levenshtein_distance("sitting", "kitten"), 3);
    assert_eq!(levenshtein_distance("abc", ""), 3);
}

#[test]
fn test_execution_context_creation() {
    let context = ExecutionContext::new("test-workflow".to_string());
    assert_eq!(context.workflow_id, "test-workflow");
    assert!(context.context_store.is_empty());
}

#[test]
fn test_execution_context_store_value() {
    let mut context = ExecutionContext::new("test-workflow".to_string());
    context.set_value("key1", text("value1"));
    let value = context.get_value("key1").unwrap();
    assert_eq!(value, &text("value1"));
}

#[test]
fn context_overwrites_in_place() {
    let mut context = ExecutionContext::new("w".to_string());
    context.set_value("a", text("1"));
    context.set_value("b", text("2"));
    context.set_value("a", text("3"));
    assert_eq!(context.context_store.len(), 2);
    assert_eq!(context.get_value("a"), Some(&text("3")));
    assert_eq!(context.get_value("b"), Some(&text("2")));
    assert_eq!(context.get_value("c"), None);
}

#[test]
fn test_validate_duplicate_agent_ids() {
    let wf = workflow("Dup", ExecutionMode::Sequential, vec![agent("agent1", "a", &[]), agent("agent1", "b", &[])]);
    let result = WorkflowParser::validate(&wf);
    assert!(result.is_err());
    if let Err(Error::InvalidWorkflowDefinition { reason }) = result {
        assert!(reason.contains("Duplicate agent IDs"));
        assert!(reason.contains("agent1"));
        assert_eq!(reason, r#"Duplicate agent IDs found: ["agent1"]"#);
    } else {
        panic!("Expected InvalidWorkflowDefinition error");
    }
}

#[test]
fn test_validate_invalid_dependency() {
    let wf = workflow("Dep", ExecutionMode::Sequential, vec![agent("agent1", "a", &[]), agent("agent2", "b", &["nonexistent_agent"])]);
    let result = WorkflowParser::validate(&wf);
    assert!(result.is_err());
    if let Err(Error::InvalidWorkflowDefinition { reason }) = result {
        assert!(reason.contains("depends on non-existent agent"));
        assert!(reason.contains("nonexistent_agent"));
        assert_eq!(reason, "Agent 'agent2' depends on non-existent agent 'nonexistent_agent'");
    } else {
        panic!("Expected InvalidWorkflowDefinition error");
    }
}

#[test]
fn valid_workflow_with_dependencies_passes() {
    let wf = workflow("Ok", ExecutionMode::Sequential, vec![
        agent("agent1", "a", &[]),
        agent("agent2", "b", &["agent1"]),
        agent("agent3", "c", &["agent1", "agent2"]),
    ]);
    assert!(WorkflowParser::validate(&wf).is_ok());
}

#[test]
fn merge_concat() {
    let results = vec!["Result from agent1".to_string(), "Result from agent2".to_string(), "Result from agent3".to_string()];
    let merged = merge_results(results, MergeStrategy::Concat).unwrap();
    assert_eq!(merged, "Result from agent1\nResult from agent2\nResult from agent3");
    assert_eq!(merged.lines().count(), 3);
}

#[test]
fn merge_vote_clear_winner_and_tie() {
    let results: Vec<String> = ["Option A", "Option B", "Option A", "Option A", "Option B"].iter().map(|s| s.to_string()).collect();
    assert_eq!(merge_results(results, MergeStrategy::Vote).unwrap(), "Option A");
    let tie: Vec<String> = ["Option B", "Option A", "Option A", "Option B"].iter().map(|s| s.to_string()).collect();
    assert_eq!(merge_results(tie, MergeStrategy::Vote).unwrap(), "Option B");
    assert_eq!(merge_results(vec!["Only result".to_string()], MergeStrategy::Vote).unwrap(), "Only result");
    match merge_results(vec![], MergeStrategy::Vote) {
        Err(Error::Internal(m)) => assert_eq!(m, "Cannot vote on empty results"),
        other => panic!("unexpected {:?}", other),
    }
}

#[test]
fn merge_synthesis() {
    let results: Vec<String> = ["The answer is 42", "The answer is 43", "The answer is 42"].iter().map(|s| s.to_string()).collect();
    let merged = merge_results(results, MergeStrategy::LlmMerge).unwrap();
    assert_eq!(
        merged,
        "Synthesized result from multiple agents:\n\nAgent 1 perspective: The answer is 42\nAgent 2 perspective: The answer is 43\nAgent 3 perspective: The answer is 42\n\nConsensus: Multiple perspectives provided (2 unique viewpoints)."
    );
    let same: Vec<String> = vec!["x".to_string(), "x".to_string()];
    assert!(merge_results(same, MergeStrategy::LlmMerge).unwrap().ends_with("Consensus: All agents agree on the result."));
    assert_eq!(merge_results(vec!["solo".to_string()], MergeStrategy::LlmMerge).unwrap(), "solo");
    assert!(merge_results(vec![], MergeStrategy::LlmMerge).is_err());
}

#[test]
fn sequential_execution_records_and_stores() {
    let bus = Arc::new(EventBus::new());
    let mut receiver = bus.subscribe();
    let mut executor = SequentialExecutor::new(bus.clone());
    let wf = workflow("Multi", ExecutionMode::Sequential, vec![agent("agent1", "First task", &[]), agent("agent2", "Use {agent1.output}", &[])]);
    let mut context = ExecutionContext::new("test-workflow".to_string());
    let out = executor.execute(&wf, &mut context).unwrap();
    let expected_id = uuid::Uuid::from_u128(context.execution_id).to_string();
    let first = r#"{"message":"Task executed by base agent","task_description":"First task"}"#;
    let second_task = format!("Use {}", first);
    assert_eq!(
        to_json_text(&out),
        format!(
            r#"{{"agents":[{{"agent_id":"agent1","result":{},"status":"completed","task":"First task"}},{{"agent_id":"agent2","result":{{"message":"Task executed by base agent","task_description":{}}},"status":"completed","task":{}}}],"execution_id":"{}","workflow":"Multi"}}"#,
            first,
            to_json_text(&text(&second_task)),
            to_json_text(&text(&second_task)),
            expected_id
        )
    );
    assert_eq!(to_json_text(context.get_value("agent1.output").unwrap()), first);
    match receiver.try_recv().unwrap() {
        AgentEvent::TaskStarted { agent_id, task } => {
            assert_eq!(agent_id, "agent1");
            assert_eq!(task, "First task");
        }
        other => panic!("unexpected {:?}", other),
    }
    match receiver.try_recv().unwrap() {
        AgentEvent::TaskCompleted { output, .. } => assert_eq!(output, first),
        other => panic!("unexpected {:?}", other),
    }
    match receiver.try_recv().unwrap() {
        AgentEvent::TaskStarted { agent_id, task } => {
            assert_eq!(agent_id, "agent2");
            assert!(task.contains("Task executed by base agent"));
        }
        other => panic!("unexpected {:?}", other),
    }
    assert!(matches!(receiver.try_recv().unwrap(), AgentEvent::TaskCompleted { .. }));
    assert!(receiver.try_recv().is_err());
}

#[test]
fn sequential_execution_stops_at_missing_variable() {
    let mut executor = SequentialExecutor::new(Arc::new(EventBus::new()));
    let wf = workflow("Bad", ExecutionMode::Sequential, vec![agent("a", "ok", &[]), agent("b", "{missing}", &[])]);
    let mut context = ExecutionContext::new("w".to_string());
    assert!(matches!(executor.execute(&wf, &mut context), Err(Error::VariableNotFound { .. })));
    assert_eq!(to_json_text(context.get_value("a.output").unwrap()), r#"{"message":"Task executed by base agent","task_description":"ok"}"#);
    assert_eq!(context.get_value("b.output"), None);
}

#[test]
fn parallel_and_unified_execution() {
    let bus = Arc::new(EventBus::new());
    let mut executor = ParallelExecutor::new(bus.clone());
    let context = ExecutionContext::new("test-workflow".to_string());
    let results = executor.execute(vec![agent("agent1", "Test task 1", &[]), agent("agent2", "Test task 2", &[]), agent("agent3", "Test task 3", &[])], &context).unwrap();
    assert_eq!(results.len(), 3);
    assert_eq!(results[1], "Agent agent2 completed task: Test task 2");
    let mut unified = WorkflowExecutor::new(bus);
    let wf = workflow("Parallel Test", ExecutionMode::Parallel, vec![agent("agent1", "Task 1", &[]), agent("agent2", "Task 2", &[])]);
    let mut ctx = ExecutionContext::new("w".to_string());
    let out = unified.execute(&wf, &mut ctx).unwrap();
    let text_out = to_json_text(&out);
    assert!(text_out.starts_with(r#"{"agents":[{"agent_id":"agent1","error":null,"result":"Agent agent1 completed task: Task 1","status":"completed","task_id":"task_0"}"#));
    assert!(ctx.context_store.is_empty());
}

#[test]
fn dag_mode_runs_each_agent_after_its_dependencies() {
    let bus = Arc::new(EventBus::new());
    let mut receiver = bus.subscribe();
    let mut unified = WorkflowExecutor::new(bus.clone());
    let dag = workflow("Dag", ExecutionMode::Dag, vec![
        agent("report", "Write up {research.output}", &["research"]),
        agent("research", "Find facts", &[]),
    ]);
    let mut ctx = ExecutionContext::new("w".to_string());
    let out = unified.execute(&dag, &mut ctx).unwrap();
    let text_out = to_json_text(&out);
    assert!(text_out.starts_with(r#"{"agents":[{"agent_id":"research","#));
    assert!(text_out.contains(r#"{"agent_id":"report","result":{"message":"Task executed by base agent","task_description":"Write up {\"message\""#));
    match receiver.try_recv().unwrap() {
        AgentEvent::TaskStarted { agent_id, task } => {
            assert_eq!(agent_id, "research");
            assert_eq!(task, "Find facts");
        }
        other => panic!("unexpected {:?}", other),
    }
    assert!(ctx.get_value("report.output").is_some());
    let cyclic = workflow("Loop", ExecutionMode::Dag, vec![agent("a", "A", &["b"]), agent("b", "B", &["a"])]);
    let mut ctx2 = ExecutionContext::new("w".to_string());
    match unified.execute(&cyclic, &mut ctx2) {
        Err(Error::CircularDependency { agents }) => assert_eq!(agents, vec!["a".to_string(), "b".to_string()]),
        other => panic!("unexpected {:?}", other),
    }
    assert!(ctx2.context_store.is_empty());
    let dangling = workflow("Dangling", ExecutionMode::Dag, vec![agent("a", "A", &["zzz"])]);
    assert!(matches!(unified.execute(&dangling, &mut ctx2), Err(Error::InvalidWorkflowDefinition { .. })));
}

#[test]
fn parallel_execution_publishes_events_per_agent() {
    let bus = Arc::new(EventBus::new());
    let mut receiver = bus.subscribe();
    let mut executor = ParallelExecutor::new(bus.clone());
    let context = ExecutionContext::new("w".to_string());
    executor.execute(vec![agent("x", "Tx", &[]), agent("y", "Ty", &[])], &context).unwrap();
    let mut seen = Vec::new();
    while let Ok(e) = receiver.try_recv() {
        seen.push(e.to_json());
    }
    assert_eq!(seen, vec![
        r#"{"TaskStarted":{"agent_id":"x","task":"Tx"}}"#.to_string(),
        r#"{"TaskCompleted":{"agent_id":"x","output":"Agent x completed task: Tx"}}"#.to_string(),
        r#"{"TaskStarted":{"agent_id":"y","task":"Ty"}}"#.to_string(),
        r#"{"TaskCompleted":{"agent_id":"y","output":"Agent y completed task: Ty"}}"#.to_string(),
    ]);
}

#[test]
fn event_json_text() {
    let e = AgentEvent::TaskFailed { agent_id: "agent3".to_string(), error: "Connection \"timeout\"".to_string() };
    assert_eq!(e.to_json(), r#"{"TaskFailed":{"agent_id":"agent3","error":"Connection \"timeout\""}}"#);
}

#[test]
fn test_workflow_error_display() {
    let err = Error::WorkflowNotFound { workflow_id: "test-workflow".to_string() };
    assert!(err.message().contains("test-workflow"));
    assert_eq!(err.message(), "Workflow 'test-workflow' not found");
}

#[test]
fn test_variable_not_found_with_suggestions() {
    let err = Error::VariableNotFound { variable: "pdf_reeder".to_string(), suggestions: vec!["pdf_reader".to_string()] };
    let msg = err.message();
    assert!(msg.contains("pdf_reeder"));
    assert!(msg.contains("pdf_reader"));
}

#[test]
fn test_execution_not_found() {
    let id = uuid::Uuid::new_v4();
    let err = Error::ExecutionNotFound { execution_id: id.as_u128() };
    assert!(err.message().contains(&id.to_string()));
}

#[test]
fn test_circular_dependency() {
    let err = Error::CircularDependency { agents: vec!["agent1".to_string(), "agent2".to_string()] };
    let msg = err.message();
    assert!(msg.contains("agent1"));
    assert!(msg.contains("agent2"));
}

#[test]
fn test_execution_timeout() {
    let err = Error::ExecutionTimeout { timeout: Duration::from_secs(30) };
    assert!(err.message().contains("30"));
}

#[test]
fn test_concat_strategy() {
    let results = vec![
        "Result from agent1".to_string(),
        "Result from agent2".to_string(),
        "Result from agent3".to_string(),
    ];
    let merged = merge_results(results, MergeStrategy::Concat).unwrap();
    assert!(merged.contains("Result from agent1"));
    assert!(merged.contains("Result from agent2"));
    assert!(merged.contains("Result from agent3"));
    assert_eq!(merged.lines().count(), 3);
}

#[test]
fn test_vote_strategy_with_clear_winner() {
    let results = vec![
        "Option A".to_string(),
        "Option B".to_string(),
        "Option A".to_string(),
        "Option A".to_string(),
        "Option B".to_string(),
    ];
    assert_eq!(merge_results(results, MergeStrategy::Vote).unwrap(), "Option A");
}

#[test]
fn test_vote_strategy_with_tie() {
    let results = vec![
        "Option A".to_string(),
        "Option B".to_string(),
        "Option A".to_string(),
        "Option B".to_string(),
    ];
    let merged = merge_results(results, MergeStrategy::Vote).unwrap();
    assert!(merged == "Option A" || merged == "Option B");
    // The first of the most common results wins a tie.
    assert_eq!(merged, "Option A");
}

#[test]
fn test_vote_strategy_single_result() {
    let results = vec!["Only result".to_string()];
    assert_eq!(merge_results(results, MergeStrategy::Vote).unwrap(), "Only result");
}

#[test]
fn test_llm_merge_strategy() {
    let results = vec![
        "Agent 1 found: The sky is blue".to_string(),
        "Agent 2 found: The sky is azure".to_string(),
        "Agent 3 found: The sky is cerulean".to_string(),
    ];
    let merged = merge_results(results, MergeStrategy::LlmMerge).unwrap();
    assert!(!merged.is_empty());
    assert!(merged.len() > 10);
    assert!(merged.ends_with("Multiple perspectives provided (3 unique viewpoints)."));
}

#[test]
fn test_llm_merge_with_conflicting_results() {
    let results = vec![
        "The answer is 42".to_string(),
        "The answer is 43".to_string(),
        "The answer is 42".to_string(),
    ];
    let merged = merge_results(results, MergeStrategy::LlmMerge).unwrap();
    assert!(!merged.is_empty());
    assert!(merged.ends_with("Multiple perspectives provided (2 unique viewpoints)."));
}

#[test]
fn test_publish_and_subscribe() {
    let mut event_bus = EventBus::new();
    let mut subscriber = event_bus.subscribe();
    event_bus
        .publish(AgentEvent::TaskStarted { agent_id: "agent1".to_string(), task: "Test task".to_string() })
        .unwrap();
    match subscriber.try_recv().unwrap() {
        AgentEvent::TaskStarted { agent_id, task } => {
            assert_eq!(agent_id, "agent1");
            assert_eq!(task, "Test task");
        }
        _ => panic!("Expected TaskStarted event"),
    }
}

#[test]
fn test_multiple_subscribers() {
    let mut event_bus = EventBus::new();
    let mut sub1 = event_bus.subscribe();
    let mut sub2 = event_bus.subscribe();
    event_bus
        .publish(AgentEvent::TaskCompleted { agent_id: "agent2".to_string(), output: "Success".to_string() })
        .unwrap();
    match (sub1.try_recv().unwrap(), sub2.try_recv().unwrap()) {
        (AgentEvent::TaskCompleted { agent_id: id1, .. }, AgentEvent::TaskCompleted { agent_id: id2, .. }) => {
            assert_eq!(id1, "agent2");
            assert_eq!(id2, "agent2");
        }
        _ => panic!("Expected TaskCompleted events"),
    }
}

#[test]
fn test_task_failed_event() {
    let mut event_bus = EventBus::new();
    let mut subscriber = event_bus.subscribe();
    event_bus
        .publish(AgentEvent::TaskFailed { agent_id: "agent3".to_string(), error: "Connection timeout".to_string() })
        .unwrap();
    match subscriber.try_recv().unwrap() {
        AgentEvent::TaskFailed { agent_id, error } => {
            assert_eq!(agent_id, "agent3");
            assert_eq!(error, "Connection timeout");
        }
        _ => panic!("Expected TaskFailed event"),
    }
}

#[test]
fn test_sequential_execution_with_single_agent() {
    let mut executor = SequentialExecutor::new(Arc::new(EventBus::new()));
    let wf = workflow("Test Workflow", ExecutionMode::Sequential, vec![agent("agent1", "Do something", &[])]);
    let mut context = ExecutionContext::new("test-workflow".to_string());
    let result = executor.execute(&wf, &mut context);
    assert!(result.is_ok());
    assert!(matches!(result.unwrap(), JsonValue::Object(_)));
}

#[test]
fn test_sequential_execution_with_multiple_agents() {
    let mut executor = SequentialExecutor::new(Arc::new(EventBus::new()));
    let wf = workflow(
        "Multi-Agent Workflow",
        ExecutionMode::Sequential,
        vec![agent("agent1", "First task", &[]), agent("agent2", "Second task", &[])],
    );
    let mut context = ExecutionContext::new("test-workflow".to_string());
    assert!(executor.execute(&wf, &mut context).is_ok());
    assert!(context.get_value("agent1.output").is_some());
    assert!(context.get_value("agent2.output").is_some());
}

#[test]
fn test_sequential_execution_with_variable_interpolation() {
    let mut executor = SequentialExecutor::new(Arc::new(EventBus::new()));
    let wf = workflow(
        "Interpolation Test",
        ExecutionMode::Sequential,
        vec![agent("agent1", "Process input", &[]), agent("agent2", "Use output from {agent1.output}", &[])],
    );
    let mut context = ExecutionContext::new("test-workflow".to_string());
    assert!(executor.execute(&wf, &mut context).is_ok());
}

#[test]
fn test_events_published_during_execution() {
    let event_bus = Arc::new(EventBus::new());
    let mut subscriber = event_bus.subscribe();
    let mut executor = SequentialExecutor::new(event_bus.clone());
    let wf = workflow("Event Test", ExecutionMode::Sequential, vec![agent("agent1", "Test task", &[])]);
    let mut context = ExecutionContext::new("test-workflow".to_string());
    let result = executor.execute(&wf, &mut context);
    match subscriber.try_recv().unwrap() {
        AgentEvent::TaskStarted { agent_id, task } => {
            assert_eq!(agent_id, "agent1");
            assert_eq!(task, "Test task");
        }
        _ => panic!("Expected TaskStarted event"),
    }
    match subscriber.try_recv().unwrap() {
        AgentEvent::TaskCompleted { agent_id, .. } => assert_eq!(agent_id, "agent1"),
        _ => panic!("Expected TaskCompleted event"),
    }
    assert!(result.is_ok());
}

#[test]
fn test_parallel_execution_with_three_agents() {
    let mut executor = ParallelExecutor::new(Arc::new(EventBus::new()));
    let agents = vec![
        agent("agent1", "Test task 1", &[]),
        agent("agent2", "Test task 2", &[]),
        agent("agent3", "Test task 3", &[]),
    ];
    let context = ExecutionContext::new("test-workflow".to_string());
    let results = executor.execute(agents, &context).unwrap();
    assert_eq!(results.len(), 3);
}

#[test]
fn test_unified_executor_with_sequential_mode() {
    let mut executor = WorkflowExecutor::new(Arc::new(EventBus::new()));
    let wf = workflow(
        "Sequential Test",
        ExecutionMode::Sequential,
        vec![agent("agent1", "Task 1", &[]), agent("agent2", "Task 2", &[])],
    );
    let mut context = ExecutionContext::new("test-workflow".to_string());
    let result = executor.execute(&wf, &mut context);
    assert!(matches!(result, Ok(JsonValue::Object(_))));
}

#[test]
fn test_unified_executor_with_parallel_mode() {
    let mut executor = WorkflowExecutor::new(Arc::new(EventBus::new()));
    let wf = workflow(
        "Parallel Test",
        ExecutionMode::Parallel,
        vec![agent("agent1", "Task 1", &[]), agent("agent2", "Task 2", &[])],
    );
    let mut context = ExecutionContext::new("test-workflow".to_string());
    let result = executor.execute(&wf, &mut context);
    assert!(matches!(result, Ok(JsonValue::Object(_))));
}

#[test]
fn circular_dependencies_are_refused() {
    let wf = workflow("Cycle", ExecutionMode::Sequential, vec![
        agent("a", "A", &["b"]),
        agent("b", "B", &["a"]),
        agent("c", "C", &[]),
        agent("d", "D", &["a"]),
    ]);
    match WorkflowParser::validate(&wf) {
        Err(Error::CircularDependency { agents }) => assert_eq!(agents, vec!["a".to_string(), "b".to_string(), "d".to_string()]),
        other => panic!("unexpected {:?}", other),
    }
    let own = workflow("Self", ExecutionMode::Dag, vec![agent("x", "X", &["x"])]);
    match WorkflowParser::validate(&own) {
        Err(e) => assert_eq!(e.message(), r#"Circular dependency detected: ["x"]"#),
        other => panic!("unexpected {:?}", other),
    }
    let chain = workflow("Chain", ExecutionMode::Dag, vec![agent("c", "C", &["b"]), agent("a", "A", &[]), agent("b", "B", &["a"])]);
    assert!(WorkflowParser::validate(&chain).is_ok());
}

#[test]
fn dependency_order_runs_each_agent_after_its_dependencies() {
    let agents = vec![agent("c", "C", &["b"]), agent("a", "A", &[]), agent("b", "B", &["a"])];
    let (order, stuck) = dependency_order(&agents);
    assert_eq!(order, vec![1, 2, 0]);
    assert!(stuck.is_empty());
    let cyclic = vec![agent("p", "P", &["q"]), agent("q", "Q", &["p"]), agent("r", "R", &[])];
    let (order, stuck) = dependency_order(&cyclic);
    assert_eq!(order, vec![2]);
    assert_eq!(stuck, vec![0, 1]);
}

#[test]
fn execution_ids_print_as_hyphenated_hex() {
    let err = Error::ExecutionNotFound { execution_id: 0x0123_4567_89ab_cdef_0011_2233_4455_6677 };
    assert_eq!(err.message(), "Execution '01234567-89ab-cdef-0011-223344556677' not found");
    let zero = Error::ExecutionNotFound { execution_id: 0 };
    assert_eq!(zero.message(), "Execution '00000000-0000-0000-0000-000000000000' not found");
}

#[test]
fn test_end_to_end_workflow_execution() {
    let workflow = workflow("test-workflow", ExecutionMode::Sequential, vec![
        AgentConfig { agent_type: "test".to_string(), ..agent("agent1", "Process input", &[]) },
        AgentConfig { agent_type: "test".to_string(), ..agent("agent2", "Use {agent1.output}", &[]) },
    ]);
    assert!(WorkflowParser::validate(&workflow).is_ok());
    assert_eq!(workflow.name, "test-workflow");
    assert_eq!(workflow.agents.len(), 2);
    let event_bus = Arc::new(EventBus::new());
    let mut subscriber = event_bus.subscribe();
    let mut executor = SequentialExecutor::new(event_bus.clone());
    let mut context = ExecutionContext::new("test-workflow".to_string());
    let result = executor.execute(&workflow, &mut context);
    match subscriber.try_recv().unwrap() {
        AgentEvent::TaskStarted { agent_id, task } => {
            assert_eq!(agent_id, "agent1");
            assert_eq!(task, "Process input");
        }
        _ => panic!("Expected TaskStarted event for agent1"),
    }
    match subscriber.try_recv().unwrap() {
        AgentEvent::TaskCompleted { agent_id, .. } => assert_eq!(agent_id, "agent1"),
        _ => panic!("Expected TaskCompleted event for agent1"),
    }
    match subscriber.try_recv().unwrap() {
        AgentEvent::TaskStarted { agent_id, task } => {
            assert_eq!(agent_id, "agent2");
            assert!(task.contains("Task executed by base agent"));
        }
        _ => panic!("Expected TaskStarted event for agent2"),
    }
    match subscriber.try_recv().unwrap() {
        AgentEvent::TaskCompleted { agent_id, .. } => assert_eq!(agent_id, "agent2"),
        _ => panic!("Expected TaskCompleted event for agent2"),
    }
    let final_output = result.unwrap();
    match final_output {
        JsonValue::Object(fields) => {
            assert_eq!(fields[2], ("workflow".to_string(), text("test-workflow")));
            assert!(matches!(&fields[1], (k, JsonValue::String(_)) if k == "execution_id"));
            match &fields[0].1 {
                JsonValue::Array(agents) => {
                    assert_eq!(agents.len(), 2);
                    for (a, id) in agents.iter().zip(["agent1", "agent2"]) {
                        match a {
                            JsonValue::Object(f) => {
                                assert_eq!(f[0], ("agent_id".to_string(), text(id)));
                                assert!(matches!(&f[1], (k, JsonValue::Object(_)) if k == "result"));
                            }
                            _ => panic!("agent record is an object"),
                        }
                    }
                }
                _ => panic!("agents is an array"),
            }
        }
        _ => panic!("output is an object"),
    }
}

#[test]
fn test_workflow_execution_integration() {
    let mut executor = WorkflowExecutor::new(Arc::new(EventBus::new()));
    let wf = workflow("Integration Test Workflow", ExecutionMode::Sequential, vec![
        AgentConfig { agent_type: "test".to_string(), ..agent("agent1", "Task 1", &[]) },
    ]);
    let mut context = ExecutionContext::new("test-workflow".to_string());
    let result = executor.execute(&wf, &mut context);
    assert!(result.is_ok());
    match result.unwrap() {
        JsonValue::Object(fields) => assert_eq!(fields[2], ("workflow".to_string(), text("Integration Test Workflow"))),
        _ => panic!("output is an object"),
    }
}

#[test]
fn test_parallel_execution_integration() {
    let mut executor = WorkflowExecutor::new(Arc::new(EventBus::new()));
    let wf = workflow("Parallel Integration Test", ExecutionMode::Parallel, vec![
        AgentConfig { agent_type: "test".to_string(), ..agent("agent1", "Task 1", &[]) },
        AgentConfig { agent_type: "test".to_string(), ..agent("agent2", "Task 2", &[]) },
        AgentConfig { agent_type: "test".to_string(), ..agent("agent3", "Task 3", &[]) },
    ]);
    let mut context = ExecutionContext::new("test-workflow".to_string());
    let result = executor.execute(&wf, &mut context);
    assert!(result.is_ok());
    match result.unwrap() {
        JsonValue::Object(fields) => {
            assert_eq!(fields[2], ("workflow".to_string(), text("Parallel Integration Test")));
            assert!(matches!(&fields[0].1, JsonValue::Array(a) if a.len() == 3));
        }
        _ => panic!("output is an object"),
    }
}

#[test]
fn execution_ids_are_version_4_uuids() {
    let context = ExecutionContext::new("w".to_string());
    let id = uuid::Uuid::from_u128(context.execution_id);
    assert_eq!(id.get_version_num(), 4);
    assert_eq!((context.execution_id >> 76) & 0xf, 4);
    assert_eq!((context.execution_id >> 62) & 0x3, 2);
}
