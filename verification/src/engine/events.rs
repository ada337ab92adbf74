//! Events of agent tasks, broadcast to subscribers over a tokio channel.

use vstd::prelude::*;
use crate::json::{JsonValue, quoted, to_json_text};
use crate::text::owned;
use tokio::sync::broadcast::{Receiver, Sender};
use tokio::sync::broadcast::error::SendError;

verus! {

#[verifier::external_type_specification]
#[verifier::external_body]
#[verifier::reject_recursive_types(T)]
pub struct ExBroadcastSender<T>(Sender<T>);

#[verifier::external_type_specification]
#[verifier::external_body]
#[verifier::reject_recursive_types(T)]
pub struct ExBroadcastReceiver<T>(Receiver<T>);

#[verifier::external_type_specification]
#[verifier::external_body]
#[verifier::reject_recursive_types(T)]
pub struct ExBroadcastSendError<T>(SendError<T>);

/// What happened to an agent's task.
#[derive(Debug, Clone)]
pub enum AgentEvent {
    /// The task has started.
    TaskStarted { agent_id: String, task: String },
    /// The task completed.
    TaskCompleted { agent_id: String, output: String },
    /// The task failed.
    TaskFailed { agent_id: String, error: String },
}

/// The JSON text of an event, as serde writes an externally tagged enum:
/// `{"Variant":{"field":"value",...}}`, fields in declaration order.
pub open spec fn event_json_text(e: AgentEvent) -> Seq<char> {
    let (variant, k1, v1, k2, v2) = match e {
        AgentEvent::TaskStarted { agent_id, task } => ("TaskStarted"@, "agent_id"@, agent_id@, "task"@, task@),
        AgentEvent::TaskCompleted { agent_id, output } => ("TaskCompleted"@, "agent_id"@, agent_id@, "output"@, output@),
        AgentEvent::TaskFailed { agent_id, error } => ("TaskFailed"@, "agent_id"@, agent_id@, "error"@, error@),
    };
    seq!['{'] + quoted(variant) + seq![':'] + (seq!['{'] + (quoted(k1) + seq![':'] + quoted(v1)) + seq![',']
        + (quoted(k2) + seq![':'] + quoted(v2)) + seq!['}']) + seq!['}']
}

impl AgentEvent {
    /// The JSON text of the event (see `event_json_text`).
    pub fn to_json(&self) -> (s: String)
        ensures
            s@ == event_json_text(*self),
    {
        let (variant, k1, v1, k2, v2) = match self {
            AgentEvent::TaskStarted { agent_id, task } => ("TaskStarted", "agent_id", agent_id.as_str(), "task", task.as_str()),
            AgentEvent::TaskCompleted { agent_id, output } => ("TaskCompleted", "agent_id", agent_id.as_str(), "output", output.as_str()),
            AgentEvent::TaskFailed { agent_id, error } => ("TaskFailed", "agent_id", agent_id.as_str(), "error", error.as_str()),
        };
        let mut fields: Vec<(String, JsonValue)> = Vec::new();
        fields.push((owned(k1), JsonValue::String(owned(v1))));
        fields.push((owned(k2), JsonValue::String(owned(v2))));
        let mut outer: Vec<(String, JsonValue)> = Vec::new();
        outer.push((owned(variant), JsonValue::Object(fields)));
        let v = JsonValue::Object(outer);
        let s = to_json_text(&v);
        proof {
            crate::json::lemma_object_text_two(v->Object_0@[0].1);
            crate::json::lemma_object_text_one(v);
        }
        s
    }
}

/// The events handed to `Sender::send` through this sender, in order
/// (tokio delivers each to every receiver subscribed at that moment, and
/// drops it when there is none).
pub uninterp spec fn offered(sender: Sender<AgentEvent>) -> Seq<AgentEvent>;

/// `tokio::sync::broadcast::channel(capacity)`, keeping the sender; tokio
/// panics on a capacity of zero or above `usize::MAX / 2`, which the
/// `requires` rules out. Nothing has been sent through the new sender.
#[verifier::external_body]
fn broadcast_sender(capacity: usize) -> (s: Sender<AgentEvent>)
    requires
        0 < capacity <= usize::MAX / 2,
    ensures
        offered(s) == Seq::<AgentEvent>::empty(),
{
    let (sender, _) = tokio::sync::broadcast::channel(capacity);
    sender
}

/// `Sender::send`, keeping only whether it failed: the event is handed to
/// the channel (`offered` grows by it); the send fails when no receiver is
/// subscribed, which depends on the state of the channel, so nothing is
/// stated of the outcome.
#[verifier::external_body]
fn broadcast_send(sender: &mut Sender<AgentEvent>, event: AgentEvent) -> (r: Result<(), SendError<AgentEvent>>)
    ensures
        offered(*final(sender)) == offered(*old(sender)).push(event),
{
    sender.send(event).map(|_| ())
}

/// `Sender::subscribe`: a new receiver of the events sent from now on.
/// Nothing is stated of it: a receiver is not a plain value.
#[verifier::external_body]
fn broadcast_subscribe(sender: &Sender<AgentEvent>) -> Receiver<AgentEvent> {
    sender.subscribe()
}

/// `Sender::clone`: another sender on the same channel, through which
/// nothing has been sent yet. Which channel a sender sends on is not
/// visible here and is not stated.
#[verifier::external_body]
fn broadcast_clone(sender: &Sender<AgentEvent>) -> (s: Sender<AgentEvent>)
    ensures
        offered(s) == Seq::<AgentEvent>::empty(),
{
    sender.clone()
}

/// Publishes agent events to every subscriber.
pub struct EventBus {
    sender: Sender<AgentEvent>,
}

impl EventBus {
    /// The events sent on the channel through this handle, in order.
    pub closed spec fn sent(&self) -> Seq<AgentEvent> {
        offered(self.sender)
    }

    /// A bus that buffers up to 100 events per subscriber.
    pub fn new() -> (b: Self)
        ensures
            b.sent() == Seq::<AgentEvent>::empty(),
    {
        Self::with_capacity(100)
    }

    /// A bus that buffers up to `capacity` events per subscriber.
    pub fn with_capacity(capacity: usize) -> (b: Self)
        requires
            0 < capacity <= usize::MAX / 2,
        ensures
            b.sent() == Seq::<AgentEvent>::empty(),
    {
        EventBus { sender: broadcast_sender(capacity) }
    }

    /// Another handle on the same channel, with nothing sent through it yet.
    pub fn handle(&self) -> (b: Self)
        ensures
            b.sent() == Seq::<AgentEvent>::empty(),
    {
        EventBus { sender: broadcast_clone(&self.sender) }
    }

    /// Sends an event on the channel, to every subscriber; the send fails
    /// when no one is subscribed.
    pub fn publish(&mut self, event: AgentEvent) -> (r: Result<(), SendError<AgentEvent>>)
        ensures
            final(self).sent() == old(self).sent().push(event),
    {
        broadcast_send(&mut self.sender, event)
    }

    /// A receiver of the events published from now on.
    pub fn subscribe(&self) -> Receiver<AgentEvent> {
        broadcast_subscribe(&self.sender)
    }
}

impl Default for EventBus {
    fn default() -> (b: Self)
        ensures
            b.sent() == Seq::<AgentEvent>::empty(),
    {
        Self::new()
    }
}

} // verus!
