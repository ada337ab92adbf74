//! Agents, the tasks they are given and the outputs they produce.

use vstd::prelude::*;
use crate::api::executions::Timestamp;
use crate::engine::executor::is_text;
use crate::error::Error;
use crate::json::JsonValue;
use crate::registry::Registry;
use crate::text::owned;
use crate::time::current_time;

verus! {

/// Where an agent's work stands.
#[derive(Debug, Clone, Copy, PartialEq, Eq, Structural)]
pub enum AgentStatus {
    Pending,
    Running,
    Completed,
    Failed,
}

/// What an agent is: its id, type, name, description and settings.
#[derive(Debug)]
pub struct AgentDefinition {
    pub id: String,
    pub agent_type: String,
    pub name: String,
    pub description: Option<String>,
    pub config: Registry<JsonValue>,
}

impl AgentDefinition {
    /// An agent with an id and a type, no name, description or settings.
    pub fn new(id: &str, agent_type: &str) -> (d: Self)
        ensures
            d.id@ == id@,
            d.agent_type@ == agent_type@,
            d.name@.len() == 0,
            d.description is None,
            d.config.view() == Map::<Seq<char>, JsonValue>::empty(),
    {
        AgentDefinition {
            id: owned(id),
            agent_type: owned(agent_type),
            name: String::new(),
            description: None,
            config: Registry::new(),
        }
    }

    /// The same agent, with a name.
    pub fn with_name(self, name: &str) -> (d: Self)
        ensures
            d.id == self.id,
            d.agent_type == self.agent_type,
            d.name@ == name@,
            d.description == self.description,
            d.config == self.config,
    {
        AgentDefinition { name: owned(name), ..self }
    }

    /// The same agent, with a description.
    pub fn with_description(self, description: &str) -> (d: Self)
        ensures
            d.id == self.id,
            d.agent_type == self.agent_type,
            d.name == self.name,
            d.description matches Some(x) && x@ == description@,
            d.config == self.config,
    {
        AgentDefinition { description: Some(owned(description)), ..self }
    }

    /// The same agent, with the setting `key` set to `value`.
    pub fn with_config(self, key: &str, value: JsonValue) -> (d: Self)
        ensures
            d.id == self.id,
            d.agent_type == self.agent_type,
            d.name == self.name,
            d.description == self.description,
            d.config.view() == self.config.view().insert(key@, value),
    {
        let mut config = self.config;
        config.set(key, value);
        AgentDefinition { id: self.id, agent_type: self.agent_type, name: self.name, description: self.description, config }
    }
}

/// A task given to an agent: its id, description, context and creation time.
#[derive(Debug)]
pub struct Task {
    pub id: String,
    pub description: String,
    pub context: Registry<JsonValue>,
    pub created_at: Timestamp,
}

impl Task {
    /// A task created now, with no context.
    pub fn new(id: &str, description: &str) -> (t: Self)
        ensures
            t.id@ == id@,
            t.description@ == description@,
            t.context.view() == Map::<Seq<char>, JsonValue>::empty(),
            t.created_at.secs >= 0 && t.created_at.nanos < 1_000_000_000,
    {
        Task { id: owned(id), description: owned(description), context: Registry::new(), created_at: current_time() }
    }

    /// The same task, with the context entry `key` set to `value`.
    pub fn with_context(self, key: &str, value: JsonValue) -> (t: Self)
        ensures
            t.id == self.id,
            t.description == self.description,
            t.created_at == self.created_at,
            t.context.view() == self.context.view().insert(key@, value),
    {
        let mut context = self.context;
        context.set(key, value);
        Task { id: self.id, description: self.description, context, created_at: self.created_at }
    }
}

/// What an agent produced for a task.
#[derive(Debug)]
pub struct AgentOutput {
    pub agent_id: String,
    pub task_id: String,
    pub status: AgentStatus,
    pub result: Option<JsonValue>,
    pub error: Option<String>,
    pub metadata: Registry<JsonValue>,
    pub completed_at: Timestamp,
}

impl AgentOutput {
    /// A completed task with its result, finished now.
    pub fn success(agent_id: &str, task_id: &str, result: JsonValue) -> (o: Self)
        ensures
            o.agent_id@ == agent_id@,
            o.task_id@ == task_id@,
            o.status == AgentStatus::Completed,
            o.result == Some(result),
            o.error is None,
            o.metadata.view() == Map::<Seq<char>, JsonValue>::empty(),
    {
        AgentOutput {
            agent_id: owned(agent_id),
            task_id: owned(task_id),
            status: AgentStatus::Completed,
            result: Some(result),
            error: None,
            metadata: Registry::new(),
            completed_at: current_time(),
        }
    }

    /// A failed task with its error, finished now.
    pub fn failure(agent_id: &str, task_id: &str, error: &str) -> (o: Self)
        ensures
            o.agent_id@ == agent_id@,
            o.task_id@ == task_id@,
            o.status == AgentStatus::Failed,
            o.result is None,
            o.error matches Some(e) && e@ == error@,
            o.metadata.view() == Map::<Seq<char>, JsonValue>::empty(),
    {
        AgentOutput {
            agent_id: owned(agent_id),
            task_id: owned(task_id),
            status: AgentStatus::Failed,
            result: None,
            error: Some(owned(error)),
            metadata: Registry::new(),
            completed_at: current_time(),
        }
    }

    /// The same output, with the metadata entry `key` set to `value`.
    pub fn with_metadata(self, key: &str, value: JsonValue) -> (o: Self)
        ensures
            o.agent_id == self.agent_id,
            o.task_id == self.task_id,
            o.status == self.status,
            o.result == self.result,
            o.error == self.error,
            o.completed_at == self.completed_at,
            o.metadata.view() == self.metadata.view().insert(key@, value),
    {
        let mut metadata = self.metadata;
        metadata.set(key, value);
        AgentOutput {
            agent_id: self.agent_id,
            task_id: self.task_id,
            status: self.status,
            result: self.result,
            error: self.error,
            metadata,
            completed_at: self.completed_at,
        }
    }
}

/// The output of the base agent for a task: a success whose result holds a
/// message and the task's description.
pub fn base_agent_output(agent_id: &str, task: &Task) -> (o: AgentOutput)
    ensures
        o.agent_id@ == agent_id@,
        o.task_id@ == task.id@,
        o.status == AgentStatus::Completed,
        o.error is None,
        o.result matches Some(JsonValue::Object(f)) && f@.len() == 2
            && f@[0].0@ == "message"@ && is_text(f@[0].1, "Task executed by base agent"@)
            && f@[1].0@ == "task_description"@ && is_text(f@[1].1, task.description@),
{
    let mut f: Vec<(String, JsonValue)> = Vec::new();
    f.push((owned("message"), JsonValue::String(owned("Task executed by base agent"))));
    f.push((owned("task_description"), JsonValue::String(task.description.clone())));
    AgentOutput::success(agent_id, task.id.as_str(), JsonValue::Object(f))
}

/// The error when an agent id is registered twice.
pub fn duplicate_agent_error(id: &str) -> (e: Error)
    ensures
        e matches Error::InvalidWorkflowDefinition { reason } && reason@ == "Agent with id '"@ + id@ + "' is already registered"@,
{
    let a = crate::text::concat("Agent with id '", id);
    Error::InvalidWorkflowDefinition { reason: crate::text::concat(a.as_str(), "' is already registered") }
}

} // verus!
