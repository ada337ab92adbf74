use lopdf::{Dictionary, Document, Object};
use rustforge::agents::types::{AgentDefinition, AgentOutput, AgentStatus, Task, base_agent_output};
use rustforge::api::error::ApiError;
use rustforge::api::executions::{ExecutionStatus, Timestamp, execution_details, list_execution_details, pause_execution, resume_execution};
use rustforge::api::websocket::{ClientCommand, SocketAction, SocketMessage, apply_command, next_action};
use rustforge::api::workflows::validate_workflow;
use rustforge::engine::types::{AgentConfig, ExecutionMode, WorkflowDefinition};
use rustforge::error::Error;
use rustforge::json::{JsonValue, to_json_text};
use rustforge::llm::providers::{CompletionStep, after_fallback, after_primary, ollama_prompt, ollama_reply_text, openai_messages, openai_reply_text};
use rustforge::llm::types::{Message, MessageRole};
use rustforge::memory::{message_key, parse_message_key, recent};
use rustforge::registry::Registry;
use rustforge::storage::state::{Checkpoint, StoredExecution, StoredExecutionStatus, checkpoint_key, is_checkpoint_key_of, latest_checkpoint};
use rustforge::storage::workflow_store::{WorkflowStore, workflow_ids, yaml_stem};
use rustforge::tools::api_client::{ApiClientTool, HttpMethod};
use rustforge::tools::filesystem::{FileSystemTool, FsOperation, name_contains};
use rustforge::tools::shell::{ShellExecutorTool, command_name};
use rustforge::tools::types::{ParameterType, ToolParameter, ToolParams, ToolResult};
use rustforge::tools::web_scraper::{ScrapeOperation, WebScraperTool};

fn text(s: &str) -> JsonValue {
    JsonValue::String(s.to_string())
}

fn object(members: Vec<(&str, JsonValue)>) -> JsonValue {
    JsonValue::Object(members.into_iter().map(|(k, v)| (k.to_string(), v)).collect())
}

fn params(items: Vec<(&str, JsonValue)>) -> ToolParams {
    let mut p: ToolParams = Registry::new();
    for (k, v) in items {
        p.set(k, v);
    }
    p
}

#[test]
fn test_api_error_creation() {
    let error = ApiError::new("TEST_ERROR", "Test message");
    assert_eq!(error.code, "TEST_ERROR");
    assert_eq!(error.message, "Test message");
    assert!(error.details.is_none());
}

#[test]
fn test_api_error_with_details() {
    let error = ApiError::new("TEST_ERROR", "Test message").with_details(object(vec![("field", text("value"))]));
    assert!(error.details.is_some());
}

#[test]
fn test_not_found_error() {
    let error = ApiError::not_found("Workflow", "test-id");
    assert_eq!(error.code, "NOT_FOUND");
    assert!(error.message.contains("Workflow"));
    assert!(error.message.contains("test-id"));
}

#[test]
fn test_bad_request_error() {
    let error = ApiError::bad_request("Invalid input");
    assert_eq!(error.code, "BAD_REQUEST");
    assert_eq!(error.message, "Invalid input");
}

#[test]
fn test_internal_error() {
    let error = ApiError::internal_error("Something went wrong");
    assert_eq!(error.code, "INTERNAL_ERROR");
    assert_eq!(error.message, "Something went wrong");
}

#[test]
fn test_permission_denied_error() {
    let error = ApiError::permission_denied("Access denied");
    assert_eq!(error.code, "PERMISSION_DENIED");
    assert_eq!(error.message, "Access denied");
}

#[test]
fn api_error_statuses_and_conversion() {
    assert_eq!(ApiError::new("INVALID_INPUT", "x").status_code(), 400);
    assert_eq!(ApiError::new("FORBIDDEN", "x").status_code(), 403);
    assert_eq!(ApiError::new("UNAUTHORIZED", "x").status_code(), 401);
    assert_eq!(ApiError::new("WHATEVER", "x").status_code(), 500);
    let e = ApiError::from_error(Error::InvalidWorkflowDefinition { reason: "bad".to_string() });
    assert_eq!((e.code.as_str(), e.message.as_str()), ("BAD_REQUEST", "Invalid workflow: bad"));
    let e = ApiError::from_error(Error::Storage("disk".to_string()));
    assert_eq!((e.code.as_str(), e.message.as_str()), ("INTERNAL_ERROR", "Storage error: disk"));
}

#[test]
fn test_client_command_deserialization() {
    let cmd = ClientCommand::from_json(&object(vec![("type", text("pause"))])).unwrap();
    assert!(matches!(cmd, ClientCommand::Pause));
    let cmd = ClientCommand::from_json(&object(vec![("type", text("resume"))])).unwrap();
    assert!(matches!(cmd, ClientCommand::Resume));
    let cmd = ClientCommand::from_json(&object(vec![("type", text("cancel"))])).unwrap();
    assert!(matches!(cmd, ClientCommand::Cancel));
}

#[test]
fn test_invalid_command() {
    let result = ClientCommand::from_json(&object(vec![("type", text("invalid"))]));
    assert!(result.is_none());
}

fn stored(status: StoredExecutionStatus, data: &str) -> StoredExecution {
    StoredExecution { id: "exec-1".to_string(), status, created_at: 1000, updated_at: 1000, data: data.as_bytes().to_vec() }
}

#[test]
fn pause_resume_cancel_transitions() {
    let mut s = stored(StoredExecutionStatus::Running, "");
    assert!(pause_execution(&mut s, 2000).is_ok());
    assert_eq!((s.status, s.updated_at), (StoredExecutionStatus::Paused, 2000));
    let err = pause_execution(&mut s, 3000).unwrap_err();
    assert_eq!((err.code.as_str(), err.message.as_str()), ("BAD_REQUEST", "Execution is not running"));
    assert_eq!(s.updated_at, 2000);
    assert!(resume_execution(&mut s, 4000).is_ok());
    assert_eq!(s.status, StoredExecutionStatus::Running);
    assert_eq!(resume_execution(&mut s, 5000).unwrap_err().message, "Execution is not paused");
    assert!(apply_command(ClientCommand::Cancel, &mut s, 6000));
    assert_eq!((s.status, s.updated_at), (StoredExecutionStatus::Cancelled, 6000));
    assert!(!apply_command(ClientCommand::Resume, &mut s, 7000));
    assert_eq!(s.updated_at, 6000);
}

#[test]
fn execution_details_from_records() {
    let now = Timestamp { secs: 99, nanos: 0 };
    let data = object(vec![
        ("workflow_id", text("wf")),
        ("started_at", text("2024-01-02T03:04:05Z")),
        ("result", object(vec![("agent1", text("done"))])),
        ("error", text("boom")),
    ]);
    let s = stored(StoredExecutionStatus::Failed, "");
    let d = execution_details(5, &s, Some(data), now);
    assert_eq!(d.workflow_id, "wf");
    assert_eq!(d.status, ExecutionStatus::Failed);
    assert_eq!(d.started_at, Timestamp { secs: 1704164645, nanos: 0 });
    assert_eq!(d.completed_at, None);
    assert_eq!(d.outputs, vec![("agent1".to_string(), text("done"))]);
    assert_eq!(d.error.as_deref(), Some("boom"));
    let d = execution_details(5, &s, None, now);
    assert_eq!(d.workflow_id, "unknown");
    assert_eq!(d.started_at, Timestamp { secs: 1000, nanos: 0 });
    assert!(d.outputs.is_empty());
    let last = StoredExecution { created_at: 8210266876799, ..stored(StoredExecutionStatus::Running, "") };
    assert_eq!(execution_details(5, &last, None, now).started_at, Timestamp { secs: 8210266876799, nanos: 0 });
    let beyond = StoredExecution { created_at: 8210266876800, ..stored(StoredExecutionStatus::Running, "") };
    assert_eq!(execution_details(5, &beyond, None, now).started_at, now);
    let id = uuid::Uuid::new_v4();
    let rows = vec![(StoredExecution { id: id.to_string(), ..stored(StoredExecutionStatus::Running, "") }, None), (stored(StoredExecutionStatus::Paused, ""), None)];
    let list = list_execution_details(rows, now);
    assert_eq!(list[0].id, id.as_u128());
    assert_eq!(list[1].id, 0);
    assert_eq!(list[1].status, ExecutionStatus::Paused);
}

fn workflow(ids: &[&str]) -> WorkflowDefinition {
    WorkflowDefinition {
        name: "w".to_string(),
        mode: ExecutionMode::Sequential,
        agents: ids.iter().map(|id| AgentConfig { id: id.to_string(), agent_type: "t".to_string(), task: "x".to_string(), depends_on: vec![], config: vec![] }).collect(),
        inputs: None,
    }
}

#[test]
fn submitted_workflow_checks() {
    assert_eq!(validate_workflow(&workflow(&["a", "b", "a", "b"])), Err("Duplicate agent ID: a".to_string()));
    assert_eq!(validate_workflow(&workflow(&[])), Err("Workflow must have at least one agent".to_string()));
    assert_eq!(validate_workflow(&workflow(&["a"])), Ok(()));
}

#[test]
fn checkpoints_and_keys() {
    let cp = |t: u64, step: &str| Checkpoint { execution_id: "exec-999".to_string(), step_id: step.to_string(), timestamp: t, state: vec![] };
    let latest = latest_checkpoint(vec![cp(1000, "step-1"), cp(3000, "step-3"), cp(2000, "step-2"), cp(3000, "step-4")]).unwrap();
    assert_eq!(latest.timestamp, 3000);
    assert_eq!(latest.step_id, "step-3");
    assert!(latest_checkpoint(vec![]).is_none());
    assert_eq!(checkpoint_key(&cp(5000, "s")), "exec-999:00000000000000005000");
    assert!(is_checkpoint_key_of("exec-999:00000000000000005000", "exec-999"));
    assert!(!is_checkpoint_key_of("exec-9990:1", "exec-999"));
    assert_eq!(message_key("conv", 7), "conv:0000000007");
    assert_eq!(parse_message_key("conv:0000000007"), Some(("conv".to_string(), 7)));
    assert_eq!(parse_message_key("a:b:1"), None);
    let key = message_key("chat-42", 12345);
    assert_eq!(parse_message_key(&key), Some(("chat-42".to_string(), 12345)));
    assert!(checkpoint_key(&cp(9, "a")) < checkpoint_key(&cp(10, "b")));
    assert!(checkpoint_key(&cp(999, "a")) < checkpoint_key(&cp(u64::MAX, "b")));
    assert!(message_key("chat", 9) < message_key("chat", 10));
    assert!(message_key("chat", 99) < message_key("chat", 1000));
    assert_eq!(recent(vec![1, 2, 3, 4], 2), vec![3, 4]);
    assert_eq!(recent(vec![1, 2], 5), vec![1, 2]);
}

#[test]
fn workflow_store_paths() {
    let store = WorkflowStore::new("/data");
    assert_eq!(store.workflow_path("flow"), "/data/workflows/flow.yaml");
    assert_eq!(yaml_stem("flow.yaml"), Some("flow".to_string()));
    assert_eq!(yaml_stem(".yaml"), None);
    assert_eq!(yaml_stem("a.b.yaml"), Some("a.b".to_string()));
    assert_eq!(yaml_stem("readme.txt"), None);
    let entries = vec![("w1.yaml".to_string(), true), ("readme.txt".to_string(), true), ("dir.yaml".to_string(), false), ("w2.yaml".to_string(), true)];
    assert_eq!(workflow_ids(&entries), vec!["w1".to_string(), "w2".to_string()]);
}

#[test]
fn test_tool_parameter_builder() {
    let param = ToolParameter::new("name", "User name", ParameterType::String, true).with_default(text("default_name"));
    assert_eq!(param.name, "name");
    assert_eq!(param.description, "User name");
    assert_eq!(param.param_type, ParameterType::String);
    assert!(param.required);
    assert_eq!(param.default, Some(text("default_name")));
}

#[test]
fn test_tool_result_success() {
    let result = ToolResult::success(object(vec![("data", text("test"))])).with_metadata("duration", "100ms");
    assert!(result.success);
    assert_eq!(result.output, object(vec![("data", text("test"))]));
    assert!(result.error.is_none());
    assert_eq!(result.metadata.get("duration"), Some(&"100ms".to_string()));
}

#[test]
fn test_tool_result_error() {
    let result = ToolResult::error("Something went wrong");
    assert!(!result.success);
    assert_eq!(result.output, JsonValue::Null);
    assert_eq!(result.error, Some("Something went wrong".to_string()));
}

#[test]
fn filesystem_tool_calls() {
    let p = params(vec![("operation", text("write")), ("path", text("/tmp/a")), ("content", text("hi"))]);
    assert!(matches!(FileSystemTool::plan(&p), Ok(FsOperation::Write { ref path, ref content }) if path == "/tmp/a" && content == "hi"));
    let p = params(vec![("operation", text("write")), ("path", text("/tmp/a"))]);
    assert_eq!(FileSystemTool::plan(&p).unwrap_err().message(), "Internal error: Missing content parameter for write");
    let p = params(vec![("operation", text("chmod")), ("path", text("/tmp/a"))]);
    assert_eq!(FileSystemTool::plan(&p).unwrap_err().message(), "Internal error: Unknown operation: chmod");
    let p = params(vec![("path", text("/tmp/a"))]);
    assert_eq!(FileSystemTool::plan(&p).unwrap_err().message(), "Internal error: Missing operation parameter");
    let tool = FileSystemTool::new(vec!["/srv".to_string()]);
    let denied = tool.validate_path("/etc", Ok("/etc".to_string()), &vec![Some("/srv".to_string())]).unwrap_err();
    assert_eq!(denied.message(), "Internal error: Access denied: path \"/etc\" is outside allowed paths");
    assert!(FileSystemTool::unrestricted().validate_path("/etc", Err("x".to_string()), &vec![]).is_ok());
    assert_eq!(tool.parameters().len(), 4);
    assert!(name_contains("test1.txt", "test"));
    assert!(!name_contains("other.txt", "test"));
    let r = FileSystemTool::write_result("/tmp/a", 13);
    assert_eq!(to_json_text(&r.output), r#"{"bytes_written":13,"path":"/tmp/a"}"#);
}

#[test]
fn shell_tool_checks() {
    let tool = ShellExecutorTool::new(vec!["ls".to_string(), "echo".to_string()], std::time::Duration::from_secs(5));
    assert!(tool.validate_command("  ls   -la").is_ok());
    assert_eq!(tool.validate_command("rm -rf /").unwrap_err().message(), "Internal error: Command 'rm' is not in allowed list");
    assert_eq!(tool.validate_command("echo x; rm -rf /").unwrap_err().message(), "Internal error: Command contains shell control characters");
    assert!(tool.validate_command("echo $(rm -rf /)").is_err());
    assert!(tool.validate_command("ls | sh").is_err());
    assert!(tool.validate_command("echo 'Hello, World!'").is_ok());
    assert_eq!(command_name("\t echo hi"), "echo");
    assert_eq!(command_name("   "), "");
    let d = ShellExecutorTool::default();
    assert_eq!(d.timeout().as_secs(), 30);
    assert!(d.validate_command("anything").is_ok());
    assert_eq!(d.parameters().len(), 2);
    let r = ShellExecutorTool::command_result("false", None, String::new(), String::new(), false);
    assert_eq!(to_json_text(&r.output), r#"{"command":"false","exit_code":-1,"stderr":"","stdout":"","success":false}"#);
}

#[test]
fn scraper_and_client_tools() {
    let html = "<html><head><title>T</title><meta name='description' content='D'></head><body><h1>A</h1><a href='/x'>x</a><h2>B</h2></body></html>";
    let info = WebScraperTool::page_info("http://e", html);
    assert_eq!(to_json_text(&info.output), r#"{"description":"D","headings":["A","B"],"title":"T","url":"http://e"}"#);
    let links = WebScraperTool::extract_links("http://e", html).unwrap();
    assert_eq!(to_json_text(&links.output), r#"{"count":1,"links":["/x"],"url":"http://e"}"#);
    assert!(WebScraperTool::extract_text("u", html, Some("[[")).is_err());
    let p = params(vec![("operation", text("extract_attributes")), ("url", text("u")), ("selector", text("a"))]);
    assert_eq!(WebScraperTool::plan(&p).unwrap_err().message(), "Internal error: Missing attribute parameter for extract_attributes");
    let p = params(vec![("operation", text("page_info")), ("url", text("u"))]);
    assert!(matches!(WebScraperTool::plan(&p), Ok(ScrapeOperation::PageInfo { .. })));
    assert_eq!(ApiClientTool::parse_method("patch").unwrap(), HttpMethod::Patch);
    assert_eq!(ApiClientTool::parse_method("brew").unwrap_err().message(), "Internal error: Unsupported HTTP method: BREW");
    let p = params(vec![("url", text("http://example.com"))]);
    assert!(ApiClientTool::plan(&p).is_err());
    let p = params(vec![("method", text("GET"))]);
    assert!(ApiClientTool::plan(&p).is_err());
    let p = params(vec![("method", text("GET")), ("url", text("u")), ("headers", object(vec![("A", text("1")), ("B", JsonValue::Null)]))]);
    let call = ApiClientTool::plan(&p).unwrap();
    let headers = call.headers.unwrap();
    assert_eq!(headers.len(), 1);
    assert_eq!(headers.get("A"), Some(&"1".to_string()));
}

#[test]
fn test_message_creation() {
    let msg = Message::user("Hello");
    assert_eq!(msg.role, MessageRole::User);
    assert_eq!(msg.content, "Hello");
}

#[test]
fn ollama_test_format_messages() {
    let messages = vec![Message::system("You are helpful"), Message::user("Hello"), Message::assistant("Hi there!")];
    let formatted = ollama_prompt(&messages);
    assert!(formatted.contains("System: You are helpful"));
    assert!(formatted.contains("User: Hello"));
    assert!(formatted.contains("Assistant: Hi there!"));
    assert_eq!(formatted, "System: You are helpful\n\nUser: Hello\n\nAssistant: Hi there!");
}

#[test]
fn openai_test_format_messages() {
    let messages = vec![Message::system("You are helpful"), Message::user("Hello"), Message::assistant("Hi there!")];
    let formatted = openai_messages(&messages);
    assert_eq!(formatted.len(), 3);
    assert_eq!(to_json_text(&formatted[0]), r#"{"content":"You are helpful","role":"system"}"#);
    assert_eq!(to_json_text(&formatted[1]), r#"{"content":"Hello","role":"user"}"#);
    assert_eq!(to_json_text(&formatted[2]), r#"{"content":"Hi there!","role":"assistant"}"#);
}

#[test]
fn provider_replies_and_fallback() {
    let body = object(vec![("choices", JsonValue::Array(vec![object(vec![("message", object(vec![("content", text("hi"))]))])]))]);
    assert_eq!(openai_reply_text(&body).unwrap(), "hi");
    assert_eq!(openai_reply_text(&object(vec![("choices", JsonValue::Array(vec![]))])).unwrap_err().message(), "Internal error: Missing content in OpenAI response");
    assert_eq!(ollama_reply_text(&object(vec![("response", text("ok"))])).unwrap(), "ok");
    assert!(ollama_reply_text(&object(vec![("response", JsonValue::Null)])).is_err());
    assert!(matches!(after_primary(Ok("r".to_string()), true), CompletionStep::Done(Ok(ref s)) if s == "r"));
    assert!(matches!(after_primary(Err(Error::Internal("p".to_string())), false), CompletionStep::Done(Err(_))));
    match after_primary(Err(Error::Internal("primary failed".to_string())), true) {
        CompletionStep::TryFallback(pe) => {
            let r = after_fallback("ollama", "openai", pe, Err(Error::Internal("fallback failed".to_string())));
            assert_eq!(
                r.unwrap_err().message(),
                "Internal error: Both primary (ollama) and fallback (openai) providers failed. Primary: Internal error: primary failed. Fallback: Internal error: fallback failed"
            );
        }
        other => panic!("unexpected {:?}", other),
    }
}

#[test]
fn test_agent_definition_builder() {
    let agent = AgentDefinition::new("agent1", "research")
        .with_name("Research Agent")
        .with_description("Performs research tasks")
        .with_config("max_results", JsonValue::Number("10".to_string()));
    assert_eq!(agent.id, "agent1");
    assert_eq!(agent.agent_type, "research");
    assert_eq!(agent.name, "Research Agent");
    assert_eq!(agent.description, Some("Performs research tasks".to_string()));
    assert_eq!(agent.config.get("max_results"), Some(&JsonValue::Number("10".to_string())));
}

#[test]
fn test_task_creation() {
    let task = Task::new("task1", "Analyze data").with_context("dataset", text("sales.csv"));
    assert_eq!(task.id, "task1");
    assert_eq!(task.description, "Analyze data");
    assert_eq!(task.context.get("dataset"), Some(&text("sales.csv")));
}

#[test]
fn test_agent_output_success() {
    let output = AgentOutput::success("agent1", "task1", object(vec![("result", text("done"))]))
        .with_metadata("duration_ms", JsonValue::Number("1500".to_string()));
    assert_eq!(output.agent_id, "agent1");
    assert_eq!(output.task_id, "task1");
    assert_eq!(output.status, AgentStatus::Completed);
    assert!(output.result.is_some());
    assert!(output.error.is_none());
    assert_eq!(output.metadata.get("duration_ms"), Some(&JsonValue::Number("1500".to_string())));
}

#[test]
fn test_agent_output_failure() {
    let output = AgentOutput::failure("agent1", "task1", "Connection timeout");
    assert_eq!(output.status, AgentStatus::Failed);
    assert!(output.result.is_none());
    assert_eq!(output.error, Some("Connection timeout".to_string()));
}

#[test]
fn base_agent_reports_task() {
    let task = Task::new("t1", "Summarize");
    let out = base_agent_output("agent1", &task);
    assert_eq!(to_json_text(out.result.as_ref().unwrap()), r#"{"message":"Task executed by base agent","task_description":"Summarize"}"#);
}

fn small_pdf() -> Vec<u8> {
    let mut doc = Document::with_version("1.5");
    let pages_id = doc.new_object_id();
    let mut page = Dictionary::new();
    page.set("Type", Object::Name(b"Page".to_vec()));
    page.set("Parent", Object::Reference(pages_id));
    let page_id = doc.add_object(Object::Dictionary(page));
    let mut pages = Dictionary::new();
    pages.set("Type", Object::Name(b"Pages".to_vec()));
    pages.set("Kids", Object::Array(vec![Object::Reference(page_id)]));
    pages.set("Count", Object::Integer(1));
    doc.objects.insert(pages_id, Object::Dictionary(pages));
    let mut catalog = Dictionary::new();
    catalog.set("Type", Object::Name(b"Catalog".to_vec()));
    catalog.set("Pages", Object::Reference(pages_id));
    let catalog_id = doc.add_object(Object::Dictionary(catalog));
    doc.trailer.set("Root", Object::Reference(catalog_id));
    let mut info = Dictionary::new();
    info.set("Title", Object::string_literal("Quarterly report"));
    info.set("Author", Object::string_literal("Ada"));
    info.set("PageCountHint", Object::Integer(1));
    let info_id = doc.add_object(Object::Dictionary(info));
    doc.trailer.set("Info", Object::Reference(info_id));
    let mut bytes = Vec::new();
    doc.save_to(&mut bytes).unwrap();
    bytes
}

fn outline_of(bytes: &[u8]) -> Result<(usize, Vec<(Vec<u8>, Option<String>)>), String> {
    let doc = Document::load_mem(bytes).map_err(|e| e.to_string())?;
    let pages = doc.get_pages().len();
    let info = doc.trailer.get(b"Info").and_then(|o| o.as_reference()).and_then(|id| doc.get_object(id)).and_then(|o| o.as_dict());
    let entries = match info {
        Ok(d) => d.iter().map(|(k, v)| (k.clone(), v.as_string().ok().map(|t| t.to_string()))).collect(),
        Err(_) => Vec::new(),
    };
    Ok((pages, entries))
}

#[test]
fn pdf_metadata_reads_pages_and_string_fields() {
    let bytes = small_pdf();
    let result = rustforge::tools::pdf::PdfParserTool::metadata_result("report.pdf", outline_of(&bytes)).unwrap();
    assert!(result.success);
    match result.output {
        JsonValue::Object(fields) => {
            assert_eq!(fields.len(), 3);
            assert_eq!(fields[0].0, "metadata");
            match &fields[0].1 {
                JsonValue::Object(meta) => {
                    assert_eq!(meta.len(), 2);
                    assert_eq!(meta[0].0, "Title");
                    assert_eq!(meta[0].1, JsonValue::String("Quarterly report".to_string()));
                    assert_eq!(meta[1].0, "Author");
                    assert_eq!(meta[1].1, JsonValue::String("Ada".to_string()));
                }
                _ => panic!("metadata is an object"),
            }
            assert_eq!(fields[1].0, "page_count");
            assert_eq!(fields[1].1, JsonValue::Number("1".to_string()));
            assert_eq!(fields[2].1, JsonValue::String("report.pdf".to_string()));
        }
        _ => panic!("output is an object"),
    }
}

#[test]
fn pdf_metadata_of_bytes_that_are_no_pdf() {
    match rustforge::tools::pdf::PdfParserTool::metadata_result("x.pdf", outline_of(b"not a pdf at all")) {
        Err(Error::Internal(m)) => assert!(m.starts_with("Failed to parse PDF: ")),
        _ => panic!("expected a parse error"),
    }
}

#[test]
fn pdf_metadata_keeps_string_fields_with_text_keys() {
    let entries = vec![
        (b"Title".to_vec(), Some("T".to_string())),
        (vec![0xff, 0xfe], Some("bad key".to_string())),
        (b"Count".to_vec(), None),
        (b"Author".to_vec(), Some("A".to_string())),
    ];
    let r = rustforge::tools::pdf::PdfParserTool::metadata_result("d.pdf", Ok((7, entries))).unwrap();
    assert_eq!(to_json_text(&r.output), r#"{"metadata":{"Title":"T","Author":"A"},"page_count":7,"path":"d.pdf"}"#);
}

#[test]
fn pdf_text_result_reports_length_path_and_text() {
    let r = rustforge::tools::pdf::PdfParserTool::text_result("a.pdf", Ok("héllo".to_string())).unwrap();
    assert_eq!(to_json_text(&r.output), r#"{"length":6,"path":"a.pdf","text":"héllo"}"#);
    match rustforge::tools::pdf::PdfParserTool::text_result("a.pdf", Err("broken".to_string())) {
        Err(e) => assert_eq!(e.message(), "Internal error: Failed to extract text from PDF: broken"),
        _ => panic!("expected an error"),
    }
}

#[test]
fn latest_checkpoint_is_of_that_execution_only() {
    let cp = |id: &str, t: u64, step: &str| Checkpoint { execution_id: id.to_string(), step_id: step.to_string(), timestamp: t, state: vec![] };
    let all = vec![cp("a", 10, "a-10"), cp("a:b", 99, "ab-99"), cp("a", 20, "a-20"), cp("ab", 50, "x")];
    let latest = rustforge::storage::state::latest_checkpoint_of("a", all).unwrap();
    assert_eq!(latest.step_id, "a-20");
    assert!(rustforge::storage::state::latest_checkpoint_of("zzz", vec![cp("a", 1, "s")]).is_none());
}

#[test]
fn socket_messages_map_to_actions() {
    let pause = SocketMessage::Text(Some(object(vec![("type", text("pause"))])));
    assert_eq!(next_action(&pause), SocketAction::Apply(ClientCommand::Pause));
    assert_eq!(next_action(&SocketMessage::Text(Some(object(vec![("type", text("dance"))])))), SocketAction::Ignore);
    assert_eq!(next_action(&SocketMessage::Text(None)), SocketAction::Ignore);
    assert_eq!(next_action(&SocketMessage::Close), SocketAction::Stop);
    assert_eq!(next_action(&SocketMessage::Other), SocketAction::Ignore);
    let mut s = stored(StoredExecutionStatus::Running, "");
    assert!(apply_command(ClientCommand::Cancel, &mut s, 7));
    assert!(!apply_command(ClientCommand::Resume, &mut s, 8));
    assert!(!apply_command(ClientCommand::Pause, &mut s, 9));
    assert_eq!(s.status, StoredExecutionStatus::Cancelled);
    assert_eq!(s.updated_at, 7);
}

#[test]
fn session_applies_commands_until_close() {
    let messages = vec![
        SocketMessage::Text(Some(object(vec![("type", text("pause"))]))),
        SocketMessage::Text(None),
        SocketMessage::Text(Some(object(vec![("type", text("resume"))]))),
        SocketMessage::Other,
        SocketMessage::Text(Some(object(vec![("type", text("pause"))]))),
        SocketMessage::Close,
        SocketMessage::Text(Some(object(vec![("type", text("cancel"))]))),
    ];
    let mut s = stored(StoredExecutionStatus::Running, "");
    let mut applied = 0;
    for (now, m) in messages.iter().enumerate() {
        match next_action(m) {
            SocketAction::Apply(c) => {
                apply_command(c, &mut s, now as u64);
                applied += 1;
            }
            SocketAction::Ignore => {}
            SocketAction::Stop => break,
        }
    }
    assert_eq!(applied, 3);
    assert_eq!(s.status, StoredExecutionStatus::Paused);
    assert_eq!(s.updated_at, 4);
}
