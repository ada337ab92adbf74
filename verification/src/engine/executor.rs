//! Running the agents of a workflow one after another, each through the
//! base agent, with each output stored for the tasks that follow.

use vstd::prelude::*;
use std::sync::Arc;
use crate::agents::types::{Task, base_agent_output};
use crate::engine::events::{AgentEvent, EventBus};
use crate::engine::interpolation::{VariableInterpolator, interp_final, interpolation_result, resolve, value_text};
use crate::engine::types::{AgentConfig, ExecutionContext, WorkflowDefinition, key_position, law_context_read_after_write, lookup, store_set};
use crate::engine::parser::agent_ids;
use crate::error::{Error, uuid_text, uuid_to_string};
use crate::json::{JsonValue, json_text, quoted, to_json_text};
use crate::text::{concat, owned};

verus! {

/// `v` is the JSON string `t`.
pub open spec fn is_text(v: JsonValue, t: Seq<char>) -> bool {
    v matches JsonValue::String(s) && s@ == t
}

/// `v` is what the base agent gives for `task`: an object with `message`
/// ("Task executed by base agent") and `task_description` (the task).
pub open spec fn is_base_result(v: JsonValue, task: Seq<char>) -> bool {
    &&& v matches JsonValue::Object(f)
    &&& f@.len() == 2
    &&& f@[0].0@ == "message"@ && is_text(f@[0].1, "Task executed by base agent"@)
    &&& f@[1].0@ == "task_description"@ && is_text(f@[1].1, task)
}

/// The JSON text of the base agent's result for `task`.
pub open spec fn base_result_text(task: Seq<char>) -> Seq<char> {
    seq!['{'] + (quoted("message"@) + seq![':'] + quoted("Task executed by base agent"@)) + seq![',']
        + (quoted("task_description"@) + seq![':'] + quoted(task)) + seq!['}']
}

/// The JSON text of a base-agent result.
pub proof fn lemma_base_result_text(v: JsonValue, task: Seq<char>)
    requires
        is_base_result(v, task),
    ensures
        json_text(v) == base_result_text(task),
        value_text(v) == base_result_text(task),
{
    crate::json::lemma_object_text_two(v);
}

/// The context key under which an agent's output is stored.
pub open spec fn output_key(id: Seq<char>) -> Seq<char> {
    id + ".output"@
}

/// The agents at the positions `order`, in that order.
pub open spec fn agents_at(agents: Seq<AgentConfig>, order: Seq<usize>) -> Seq<AgentConfig> {
    order.map_values(|i: usize| agents[i as int])
}

/// The task of agent `k` of a run, interpolated in the store before it.
pub open spec fn task_at(stores: Seq<Seq<(String, JsonValue)>>, agents: Seq<AgentConfig>, k: int) -> Seq<char> {
    interp_final(stores[k], agents[k].task@).0
}

/// The record of one completed step: an object with `agent_id`, `result`
/// (the base agent's result), `status` and `task`, in that (sorted) order.
pub open spec fn step_record(v: JsonValue, id: Seq<char>, task: Seq<char>) -> bool {
    &&& v matches JsonValue::Object(f)
    &&& f@.len() == 4
    &&& f@[0].0@ == "agent_id"@ && is_text(f@[0].1, id)
    &&& f@[1].0@ == "result"@ && is_base_result(f@[1].1, task)
    &&& f@[2].0@ == "status"@ && is_text(f@[2].1, "completed"@)
    &&& f@[3].0@ == "task"@ && is_text(f@[3].1, task)
}

/// One step: the agent's task interpolates without error in the store
/// `before`, and `after` is `before` with the base agent's result for the
/// interpolated task stored under `{id}.output`.
pub open spec fn step_done(before: Seq<(String, JsonValue)>, agent: AgentConfig, after: Seq<(String, JsonValue)>) -> bool {
    let key = output_key(agent.id@);
    let v = after[key_position(before, key)].1;
    &&& interp_final(before, agent.task@).1.len() == 0
    &&& is_base_result(v, interp_final(before, agent.task@).0)
    &&& store_set(before, key, v, after)
}

/// `stores[k]` is the store before step `k`, for the first `n` agents.
pub open spec fn run_trace(stores: Seq<Seq<(String, JsonValue)>>, agents: Seq<AgentConfig>, n: int) -> bool {
    &&& 0 <= n <= agents.len()
    &&& stores.len() == n + 1
    &&& forall|k: int| 0 <= k < n ==> #[trigger] step_done(stores[k], agents[k], stores[k + 1])
}

/// `e` says that agent `id` started `task`.
pub open spec fn started(e: AgentEvent, id: Seq<char>, task: Seq<char>) -> bool {
    e matches AgentEvent::TaskStarted { agent_id, task: t } && agent_id@ == id && t@ == task
}

/// `e` says that agent `id` completed with `output`.
pub open spec fn completed(e: AgentEvent, id: Seq<char>, output: Seq<char>) -> bool {
    e matches AgentEvent::TaskCompleted { agent_id, output: o } && agent_id@ == id && o@ == output
}

/// Events `2k` and `2k + 1` say that agent `id` started `task`, then
/// completed with `output`.
pub open spec fn step_logged(events: Seq<AgentEvent>, k: int, id: Seq<char>, task: Seq<char>, output: Seq<char>) -> bool {
    started(events[2 * k], id, task) && completed(events[2 * k + 1], id, output)
}

/// The events of the first `n` steps of a run: for each agent in turn, that
/// it started its interpolated task, then that it completed with the JSON
/// text of its result.
pub open spec fn run_log(events: Seq<AgentEvent>, agents: Seq<AgentConfig>, stores: Seq<Seq<(String, JsonValue)>>, n: int) -> bool {
    &&& events.len() == 2 * n
    &&& forall|k: int| 0 <= k < n ==> #[trigger] step_logged(events, k, agents[k].id@, task_at(stores, agents, k),
        base_result_text(task_at(stores, agents, k)))
}

/// The output of a whole run: an object with `agents` (one record per
/// step), `execution_id` and `workflow`.
pub open spec fn run_output(
    out: JsonValue,
    workflow: Seq<char>,
    execution: Seq<char>,
    agents: Seq<AgentConfig>,
    stores: Seq<Seq<(String, JsonValue)>>,
) -> bool {
    &&& out matches JsonValue::Object(f)
    &&& f@.len() == 3
    &&& f@[0].0@ == "agents"@
    &&& f@[0].1 matches JsonValue::Array(items) && items@.len() == agents.len()
        && forall|k: int| 0 <= k < agents.len() ==>
            step_record(#[trigger] items@[k], agents[k].id@, task_at(stores, agents, k))
    &&& f@[1].0@ == "execution_id"@ && is_text(f@[1].1, execution)
    &&& f@[2].0@ == "workflow"@ && is_text(f@[2].1, workflow)
}

/// What running the agents `run` one after another gives, from the store
/// `before` to the store `after` and from the published events `sent` to
/// `sent_after`: on success the output of the whole run; on failure, the
/// error of the first task that did not interpolate, the outputs and the
/// events of the agents before it being kept.
pub open spec fn sequential_outcome(
    before: Seq<(String, JsonValue)>,
    after: Seq<(String, JsonValue)>,
    sent: Seq<AgentEvent>,
    sent_after: Seq<AgentEvent>,
    execution_id: u128,
    name: Seq<char>,
    run: Seq<AgentConfig>,
    r: Result<JsonValue, Error>,
) -> bool {
    match r {
        Ok(out) => exists|stores: Seq<Seq<(String, JsonValue)>>, events: Seq<AgentEvent>| {
            &&& run_trace(stores, run, run.len() as int)
            &&& stores[0] == before
            &&& after == stores.last()
            &&& sent_after == sent + events
            &&& run_log(events, run, stores, run.len() as int)
            &&& run_output(out, name, uuid_text(execution_id), run, stores)
        },
        Err(e) => exists|stores: Seq<Seq<(String, JsonValue)>>, events: Seq<AgentEvent>, n: int| {
            &&& run_trace(stores, run, n)
            &&& n < run.len()
            &&& stores[0] == before
            &&& after == stores.last()
            &&& sent_after == sent + events
            &&& run_log(events, run, stores, n)
            &&& interp_final(stores.last(), run[n].task@).1.len() > 0
            &&& interpolation_result(stores.last(), run[n].task@, Err(e))
        },
    }
}

/// The store holds the base agent's result for `task` under `{id}.output`.
pub open spec fn holds_output(store: Seq<(String, JsonValue)>, id: Seq<char>, task: Seq<char>) -> bool {
    lookup(store, output_key(id)) matches Some(v) && is_base_result(v, task)
}

/// The store holds the base agent's result for some task under
/// `{id}.output`.
pub open spec fn output_stored(store: Seq<(String, JsonValue)>, id: Seq<char>) -> bool {
    exists|task: Seq<char>| holds_output(store, id, task)
}

/// `{id.output}` resolves in the store to the JSON text of the base
/// agent's result for some task.
pub open spec fn output_resolves(store: Seq<(String, JsonValue)>, id: Seq<char>) -> bool {
    exists|task: Seq<char>| resolve(store, output_key(id)) == Some(base_result_text(task))
}

/// Appending the same suffix to two texts keeps them apart.
proof fn lemma_output_key_injective(a: Seq<char>, b: Seq<char>)
    requires
        output_key(a) == output_key(b),
    ensures
        a == b,
{
    assert(output_key(a).len() == a.len() + ".output"@.len());
    assert(output_key(b).len() == b.len() + ".output"@.len());
    assert(a.len() == b.len());
    assert forall|j: int| 0 <= j < a.len() implies a[j] == b[j] by {
        assert(output_key(a)[j] == a[j]);
        assert(output_key(b)[j] == b[j]);
    }
    assert(a =~= b);
}

/// Along a run of agents with distinct ids, once an agent has run its
/// output stays readable under `{id}.output` in every later store.
pub proof fn lemma_outputs_stay(stores: Seq<Seq<(String, JsonValue)>>, agents: Seq<AgentConfig>, n: int, k: int)
    requires
        run_trace(stores, agents, n),
        agent_ids(agents).no_duplicates(),
        0 <= k <= n,
    ensures
        forall|i: int| 0 <= i < k ==> #[trigger] holds_output(stores[k], agents[i].id@, task_at(stores, agents, i)),
    decreases k,
{
    if k > 0 {
        lemma_outputs_stay(stores, agents, n, k - 1);
        let j = k - 1;
        assert(step_done(stores[j], agents[j], stores[j + 1]));
        let before = stores[j];
        let after = stores[k];
        let key = output_key(agents[j].id@);
        let v = after[key_position(before, key)].1;
        law_context_read_after_write(before, after, key, v);
        assert(lookup(after, key) == Some(v));
        assert forall|i: int| 0 <= i < k implies #[trigger] holds_output(stores[k], agents[i].id@, task_at(stores, agents, i)) by {
            let ki = output_key(agents[i].id@);
            if ki == key {
                lemma_output_key_injective(agents[i].id@, agents[j].id@);
                if i != j {
                    assert(agent_ids(agents)[i] == agent_ids(agents)[j]);
                }
                assert(lookup(after, ki) == Some(v));
            } else {
                assert(i < j);
                assert(holds_output(stores[j], agents[i].id@, task_at(stores, agents, i)));
                assert(lookup(after, ki) == lookup(before, ki));
            }
        }
    }
}

/// Passing outputs between agents: when agent `k` of a run whose ids are
/// distinct interpolates its task, the placeholder `{id.output}` of every
/// agent `i` that ran before it resolves to the JSON text of that agent's
/// result.
pub proof fn law_earlier_outputs_resolve(stores: Seq<Seq<(String, JsonValue)>>, agents: Seq<AgentConfig>, n: int, k: int, i: int)
    requires
        run_trace(stores, agents, n),
        agent_ids(agents).no_duplicates(),
        0 <= i < k <= n,
    ensures
        resolve(stores[k], output_key(agents[i].id@)) == Some(base_result_text(task_at(stores, agents, i))),
{
    lemma_outputs_stay(stores, agents, n, k);
    assert(holds_output(stores[k], agents[i].id@, task_at(stores, agents, i)));
    let v = lookup(stores[k], output_key(agents[i].id@))->Some_0;
    lemma_base_result_text(v, task_at(stores, agents, i));
}

/// What the engine promises of interpolation between agents: after a run
/// of agents with distinct ids that succeeds, the output of every agent can
/// be read under `{id}.output`, where a later task's `{id.output}`
/// placeholder finds it.
pub proof fn law_every_output_is_stored(
    before: Seq<(String, JsonValue)>,
    after: Seq<(String, JsonValue)>,
    sent: Seq<AgentEvent>,
    sent_after: Seq<AgentEvent>,
    execution_id: u128,
    name: Seq<char>,
    run: Seq<AgentConfig>,
    out: JsonValue,
)
    requires
        sequential_outcome(before, after, sent, sent_after, execution_id, name, run, Ok(out)),
        agent_ids(run).no_duplicates(),
    ensures
        forall|i: int| 0 <= i < run.len() ==> #[trigger] output_stored(after, run[i].id@),
        forall|i: int| 0 <= i < run.len() ==> #[trigger] output_resolves(after, run[i].id@),
{
    let (stores, events) = choose|stores: Seq<Seq<(String, JsonValue)>>, events: Seq<AgentEvent>| {
        &&& run_trace(stores, run, run.len() as int)
        &&& stores[0] == before
        &&& after == stores.last()
        &&& sent_after == sent + events
        &&& run_log(events, run, stores, run.len() as int)
        &&& run_output(out, name, uuid_text(execution_id), run, stores)
    };
    lemma_outputs_stay(stores, run, run.len() as int, run.len() as int);
    assert forall|i: int| 0 <= i < run.len() implies #[trigger] output_stored(after, run[i].id@) by {
        assert(holds_output(after, run[i].id@, task_at(stores, run, i)));
    }
    assert forall|i: int| 0 <= i < run.len() implies #[trigger] output_resolves(after, run[i].id@) by {
        let t = task_at(stores, run, i);
        assert(holds_output(after, run[i].id@, t));
        let v = lookup(after, output_key(run[i].id@))->Some_0;
        lemma_base_result_text(v, t);
        assert(resolve(after, output_key(run[i].id@)) == Some(base_result_text(t)));
    }
}

/// A JSON string holding a copy of `s`.
pub fn text_value(s: &str) -> (v: JsonValue)
    ensures
        is_text(v, s@),
{
    JsonValue::String(owned(s))
}

/// A copy of a base-agent result.
fn copy_base_result(v: &JsonValue) -> (r: JsonValue)
    ensures
        forall|t: Seq<char>| is_base_result(*v, t) ==> is_base_result(r, t),
{
    match v {
        JsonValue::Object(f) => {
            if f.len() == 2 {
                match (&f[0].1, &f[1].1) {
                    (JsonValue::String(a), JsonValue::String(b)) => {
                        let mut g: Vec<(String, JsonValue)> = Vec::new();
                        g.push((f[0].0.clone(), JsonValue::String(a.clone())));
                        g.push((f[1].0.clone(), JsonValue::String(b.clone())));
                        JsonValue::Object(g)
                    },
                    _ => JsonValue::Null,
                }
            } else {
                JsonValue::Null
            }
        },
        _ => JsonValue::Null,
    }
}

/// Runs the agents at the positions `order`, one after another, publishing
/// on `bus`. For each: interpolate its task in the context (stopping with
/// that error if it fails), publish that it started, hand the task to the
/// base agent, store its result under `{id}.output`, publish that it
/// completed (with the JSON text of the result), and record it.
pub(crate) fn run_in_order(
    bus: &mut EventBus,
    name: &str,
    agents: &Vec<AgentConfig>,
    order: &Vec<usize>,
    context: &mut ExecutionContext,
) -> (r: Result<JsonValue, Error>)
    requires
        forall|p: int| 0 <= p < order@.len() ==> (#[trigger] order@[p]) < agents@.len(),
    ensures
        final(context).workflow_id == old(context).workflow_id,
        final(context).execution_id == old(context).execution_id,
        sequential_outcome(old(context).context_store@, final(context).context_store@, old(bus).sent(),
            final(bus).sent(), old(context).execution_id, name@, agents_at(agents@, order@), r),
{
    let ghost run = agents_at(agents@, order@);
    let n = order.len();
    let ghost start = context.context_store@;
    let ghost sent0 = bus.sent();
    let ghost mut stores: Seq<Seq<(String, JsonValue)>> = seq![start];
    let ghost mut events: Seq<AgentEvent> = Seq::empty();
    let mut items: Vec<JsonValue> = Vec::new();
    let mut i: usize = 0;
    while i < n
        invariant
            run == agents_at(agents@, order@),
            forall|p: int| 0 <= p < order@.len() ==> (#[trigger] order@[p]) < agents@.len(),
            n == order@.len(),
            i <= n,
            run_trace(stores, run, i as int),
            run_log(events, run, stores, i as int),
            bus.sent() == sent0 + events,
            sent0 == old(bus).sent(),
            stores[0] == start,
            start == old(context).context_store@,
            context.context_store@ == stores.last(),
            context.workflow_id == old(context).workflow_id,
            context.execution_id == old(context).execution_id,
            items@.len() == i,
            forall|k: int| 0 <= k < i ==> step_record(#[trigger] items@[k], run[k].id@, task_at(stores, run, k)),
        decreases n - i,
    {
        let agent = &agents[order[i]];
        assert(run[i as int] == *agent);
        let interpolated = {
            let interpolator = VariableInterpolator::new(&*context);
            interpolator.interpolate(agent.task.as_str())
        };
        let task = match interpolated {
            Ok(t) => t,
            Err(e) => {
                assert(interpolation_result(stores.last(), run[i as int].task@, Err(e)));
                assert({
                    &&& run_trace(stores, run, i as int)
                    &&& (i as int) < run.len()
                    &&& stores[0] == old(context).context_store@
                    &&& context.context_store@ == stores.last()
                    &&& bus.sent() == old(bus).sent() + events
                    &&& run_log(events, run, stores, i as int)
                    &&& interp_final(stores.last(), run[i as int].task@).1.len() > 0
                    &&& interpolation_result(stores.last(), run[i as int].task@, Err(e))
                });
                return Err(e);
            },
        };
        let ghost sent_before = bus.sent();
        let _ = bus.publish(AgentEvent::TaskStarted { agent_id: agent.id.clone(), task: task.clone() });
        let job = Task::new(agent.id.as_str(), task.as_str());
        let outcome = base_agent_output(agent.id.as_str(), &job);
        let result = match outcome.result {
            Some(v) => v,
            None => JsonValue::Null,
        };
        let recorded = copy_base_result(&result);
        let completed_text = to_json_text(&result);
        proof {
            lemma_base_result_text(result, task@);
        }
        let key = concat(agent.id.as_str(), ".output");
        let ghost before = context.context_store@;
        context.set_value(key.as_str(), result);
        let _ = bus.publish(AgentEvent::TaskCompleted { agent_id: agent.id.clone(), output: completed_text });
        let mut fields: Vec<(String, JsonValue)> = Vec::new();
        fields.push((owned("agent_id"), text_value(agent.id.as_str())));
        fields.push((owned("result"), recorded));
        fields.push((owned("status"), text_value("completed")));
        fields.push((owned("task"), JsonValue::String(task)));
        let record = JsonValue::Object(fields);
        items.push(record);
        proof {
            let after = context.context_store@;
            assert(step_done(before, run[i as int], after));
            let old_stores = stores;
            let old_events = events;
            stores = stores.push(after);
            events = events + bus.sent().skip(sent_before.len() as int);
            assert(bus.sent() == sent_before.push(bus.sent()[sent_before.len() as int]).push(
                bus.sent()[(sent_before.len() + 1) as int]));
            assert(events =~= old_events.push(bus.sent()[sent_before.len() as int]).push(bus.sent()[(sent_before.len() + 1) as int]));
            assert(bus.sent() =~= sent0 + events);
            assert forall|k: int| 0 <= k < i + 1 implies #[trigger] step_done(stores[k], run[k], stores[k + 1]) by {
                if k < i {
                    assert(stores[k] == old_stores[k] && stores[k + 1] == old_stores[k + 1]);
                }
            }
            assert forall|k: int| 0 <= k < i + 1 implies #[trigger] step_logged(events, k, run[k].id@,
                task_at(stores, run, k), base_result_text(task_at(stores, run, k))) by {
                if k < i {
                    assert(stores[k] == old_stores[k]);
                    assert(step_logged(old_events, k, run[k].id@, task_at(old_stores, run, k),
                        base_result_text(task_at(old_stores, run, k))));
                    assert(events[2 * k] == old_events[2 * k] && events[2 * k + 1] == old_events[2 * k + 1]);
                } else {
                    assert(events[2 * k] == bus.sent()[sent_before.len() as int]);
                    assert(events[2 * k + 1] == bus.sent()[(sent_before.len() + 1) as int]);
                }
            }
            assert forall|k: int| 0 <= k < i + 1 implies
                step_record(#[trigger] items@[k], run[k].id@, task_at(stores, run, k)) by {
                assert(stores[k] == old_stores[k] || k == i);
            }
        }
        i = i + 1;
    }
    let mut top: Vec<(String, JsonValue)> = Vec::new();
    top.push((owned("agents"), JsonValue::Array(items)));
    top.push((owned("execution_id"), JsonValue::String(uuid_to_string(context.execution_id))));
    top.push((owned("workflow"), text_value(name)));
    let out = JsonValue::Object(top);
    assert(run_output(out, name@, uuid_text(old(context).execution_id), run, stores));
    Ok(out)
}

/// The positions `0..n`, in order.
pub(crate) fn positions(n: usize) -> (v: Vec<usize>)
    ensures
        v@.len() == n,
        forall|p: int| 0 <= p < n ==> #[trigger] v@[p] == p,
{
    let mut v: Vec<usize> = Vec::new();
    let mut i: usize = 0;
    while i < n
        invariant
            i <= n,
            v@.len() == i,
            forall|p: int| 0 <= p < i ==> #[trigger] v@[p] == p,
        decreases n - i,
    {
        v.push(i);
        i = i + 1;
    }
    v
}

/// Runs the agents of a workflow in order, each through the base agent.
pub struct SequentialExecutor {
    event_bus: EventBus,
}

impl SequentialExecutor {
    /// The events this executor has published, in order.
    pub closed spec fn sent(&self) -> Seq<AgentEvent> {
        self.event_bus.sent()
    }

    /// An executor that publishes its events on the channel of `event_bus`.
    pub fn new(event_bus: Arc<EventBus>) -> (r: Self)
        ensures
            r.sent() == Seq::<AgentEvent>::empty(),
    {
        SequentialExecutor { event_bus: event_bus.handle() }
    }

    /// Runs the agents in order. For each: interpolate its task in the
    /// context (stopping with that error if it fails), publish that it
    /// started, hand the interpolated task to the base agent, store its
    /// result under `{id}.output`, publish that it completed (with the JSON
    /// text of the result), and record it.
    pub fn execute(&mut self, workflow: &WorkflowDefinition, context: &mut ExecutionContext) -> (r: Result<JsonValue, Error>)
        ensures
            final(context).workflow_id == old(context).workflow_id,
            final(context).execution_id == old(context).execution_id,
            sequential_outcome(old(context).context_store@, final(context).context_store@, old(self).sent(),
                final(self).sent(), old(context).execution_id, workflow.name@, workflow.agents@, r),
    {
        let order = positions(workflow.agents.len());
        assert(agents_at(workflow.agents@, order@) =~= workflow.agents@);
        run_in_order(&mut self.event_bus, workflow.name.as_str(), &workflow.agents, &order, context)
    }
}

} // verus!
