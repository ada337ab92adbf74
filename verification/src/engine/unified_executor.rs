//! One executor for every execution mode of a workflow.

use vstd::prelude::*;
use std::sync::Arc;
use crate::engine::dag::{dependency_order, ids_at, is_dependency_order, runs_in_order};
use crate::engine::events::{AgentEvent, EventBus};
use crate::engine::executor::{agents_at, base_result_text, is_text, law_earlier_outputs_resolve, output_key, run_in_order,
    run_trace, sequential_outcome, task_at, text_value};
use crate::engine::interpolation::resolve;
use crate::engine::parallel::{ParallelExecutor, agent_report, parallel_log};
use crate::engine::parser::{WorkflowParser, agent_ids, validation_verdict, workflow_valid};
use crate::engine::types::{AgentConfig, ExecutionContext, ExecutionMode, WorkflowDefinition};
use crate::error::{Error, uuid_text, uuid_to_string};
use crate::json::JsonValue;
use crate::text::{concat, decimal, owned, usize_text};

verus! {

/// The record of one agent run in parallel: an object with `agent_id`,
/// `error` (null), `result`, `status` and `task_id` (`task_{k}`), in that
/// (sorted) order.
pub open spec fn parallel_record(v: JsonValue, k: int, agent: AgentConfig) -> bool {
    &&& v matches JsonValue::Object(f)
    &&& f@.len() == 5
    &&& f@[0].0@ == "agent_id"@ && is_text(f@[0].1, agent.id@)
    &&& f@[1].0@ == "error"@ && f@[1].1 == JsonValue::Null
    &&& f@[2].0@ == "result"@ && is_text(f@[2].1, agent_report(agent.id@, agent.task@))
    &&& f@[3].0@ == "status"@ && is_text(f@[3].1, "completed"@)
    &&& f@[4].0@ == "task_id"@ && is_text(f@[4].1, "task_"@ + decimal(k as nat))
}

/// The output of a parallel run: an object with `agents` (one record per
/// agent, in order), `execution_id` and `workflow`.
pub open spec fn parallel_output(out: JsonValue, workflow: Seq<char>, execution: Seq<char>, agents: Seq<AgentConfig>) -> bool {
    &&& out matches JsonValue::Object(f)
    &&& f@.len() == 3
    &&& f@[0].0@ == "agents"@
    &&& f@[0].1 matches JsonValue::Array(items) && items@.len() == agents.len()
        && forall|k: int| 0 <= k < agents.len() ==> parallel_record(#[trigger] items@[k], k, agents[k])
    &&& f@[1].0@ == "execution_id"@ && is_text(f@[1].1, execution)
    &&& f@[2].0@ == "workflow"@ && is_text(f@[2].1, workflow)
}

/// Agents at distinct positions of agents with distinct ids have distinct
/// ids.
proof fn lemma_run_ids_distinct(agents: Seq<AgentConfig>, order: Seq<usize>)
    requires
        agent_ids(agents).no_duplicates(),
        runs_in_order(agents, order),
    ensures
        agent_ids(agents_at(agents, order)).no_duplicates(),
{
    let run = agents_at(agents, order);
    assert forall|a: int, b: int| 0 <= a < run.len() && 0 <= b < run.len() && a != b
        implies agent_ids(run)[a] != agent_ids(run)[b] by {
        assert(order[a] != order[b]);
        assert(agent_ids(agents)[order[a] as int] != agent_ids(agents)[order[b] as int]);
    }
}

/// What a dependency-ordered run promises: when an agent of it interpolates
/// its task, the placeholder `{dep.output}` of every agent `dep` that it
/// depends on resolves to the JSON text of that agent's result, that agent
/// having run before it.
pub proof fn law_dependencies_resolve(
    agents: Seq<AgentConfig>,
    order: Seq<usize>,
    stores: Seq<Seq<(String, JsonValue)>>,
    n: int,
    k: int,
    j: int,
)
    requires
        agent_ids(agents).no_duplicates(),
        runs_in_order(agents, order),
        run_trace(stores, agents_at(agents, order), n),
        0 <= k < n,
        0 <= j < agents[order[k] as int].depends_on@.len(),
    ensures
        exists|i: int| 0 <= i < k && #[trigger] agents_at(agents, order)[i].id@ == agents[order[k] as int].depends_on@[j]@
            && resolve(stores[k], output_key(agents[order[k] as int].depends_on@[j]@))
                == Some(base_result_text(task_at(stores, agents_at(agents, order), i))),
{
    let run = agents_at(agents, order);
    let dep = agents[order[k] as int].depends_on@[j]@;
    assert(order[k] < agents.len());
    assert(ids_at(agents, order.take(k)).contains(dep));
    let m = choose|m: int| 0 <= m < ids_at(agents, order.take(k)).len() && ids_at(agents, order.take(k))[m] == dep;
    assert(order.take(k)[m] == order[m]);
    assert(run[m].id@ == dep);
    lemma_run_ids_distinct(agents, order);
    law_earlier_outputs_resolve(stores, run, n, k, m);
}

/// Runs a workflow in the mode it asks for.
pub struct WorkflowExecutor {
    event_bus: EventBus,
}

impl WorkflowExecutor {
    /// The events this executor has published, in order.
    pub closed spec fn sent(&self) -> Seq<AgentEvent> {
        self.event_bus.sent()
    }

    /// An executor whose runs publish their events on the channel of
    /// `event_bus`.
    pub fn new(event_bus: Arc<EventBus>) -> (r: Self)
        ensures
            r.sent() == Seq::<AgentEvent>::empty(),
    {
        WorkflowExecutor { event_bus: event_bus.handle() }
    }

    /// Sequential workflows run as `SequentialExecutor::execute` runs them.
    /// Parallel ones run every agent and leave the context as it was. DAG
    /// ones are validated first (failing with the validation error, nothing
    /// run); then their agents run one after another as the sequential
    /// executor runs them, in an order where each agent comes after every
    /// agent it depends on.
    pub fn execute(&mut self, workflow: &WorkflowDefinition, context: &mut ExecutionContext) -> (r: Result<JsonValue, Error>)
        ensures
            final(context).workflow_id == old(context).workflow_id,
            final(context).execution_id == old(context).execution_id,
            match workflow.mode {
                ExecutionMode::Sequential => sequential_outcome(old(context).context_store@,
                    final(context).context_store@, old(self).sent(), final(self).sent(), old(context).execution_id,
                    workflow.name@, workflow.agents@, r),
                ExecutionMode::Parallel => final(context).context_store@ == old(context).context_store@
                    && (r matches Ok(out) && parallel_output(out, workflow.name@,
                        uuid_text(old(context).execution_id), workflow.agents@))
                    && exists|events: Seq<AgentEvent>| final(self).sent() == old(self).sent() + events
                        && parallel_log(events, workflow.agents@),
                ExecutionMode::Dag => if workflow_valid(workflow.agents@) {
                    exists|order: Seq<usize>| is_dependency_order(workflow.agents@, order)
                        && sequential_outcome(old(context).context_store@, final(context).context_store@,
                            old(self).sent(), final(self).sent(), old(context).execution_id, workflow.name@,
                            agents_at(workflow.agents@, order), r)
                } else {
                    final(context).context_store@ == old(context).context_store@
                        && final(self).sent() == old(self).sent()
                        && (r matches Err(e) && validation_verdict(workflow.agents@, Err(e)))
                },
            },
    {
        match workflow.mode {
            ExecutionMode::Sequential => {
                let order = crate::engine::executor::positions(workflow.agents.len());
                assert(agents_at(workflow.agents@, order@) =~= workflow.agents@);
                run_in_order(&mut self.event_bus, workflow.name.as_str(), &workflow.agents, &order, context)
            },
            ExecutionMode::Parallel => {
                let results = ParallelExecutor::run_on(&mut self.event_bus, &workflow.agents);
                let agents = &workflow.agents;
                let mut items: Vec<JsonValue> = Vec::new();
                let mut i: usize = 0;
                while i < results.len()
                    invariant
                        agents@ == workflow.agents@,
                        results@.len() == agents@.len(),
                        forall|k: int| 0 <= k < agents@.len() ==>
                            (#[trigger] results@[k])@ == agent_report(agents@[k].id@, agents@[k].task@),
                        i <= results@.len(),
                        items@.len() == i,
                        forall|k: int| 0 <= k < i ==> parallel_record(#[trigger] items@[k], k, agents@[k]),
                    decreases results@.len() - i,
                {
                    let mut fields: Vec<(String, JsonValue)> = Vec::new();
                    fields.push((owned("agent_id"), text_value(agents[i].id.as_str())));
                    fields.push((owned("error"), JsonValue::Null));
                    fields.push((owned("result"), text_value(results[i].as_str())));
                    fields.push((owned("status"), text_value("completed")));
                    fields.push((owned("task_id"), JsonValue::String(concat("task_", usize_text(i).as_str()))));
                    items.push(JsonValue::Object(fields));
                    i = i + 1;
                }
                let mut top: Vec<(String, JsonValue)> = Vec::new();
                top.push((owned("agents"), JsonValue::Array(items)));
                top.push((owned("execution_id"), JsonValue::String(uuid_to_string(context.execution_id))));
                top.push((owned("workflow"), text_value(workflow.name.as_str())));
                Ok(JsonValue::Object(top))
            },
            ExecutionMode::Dag => {
                match WorkflowParser::validate(workflow) {
                    Err(e) => return Err(e),
                    Ok(()) => {},
                }
                let (order, _) = dependency_order(&workflow.agents);
                run_in_order(&mut self.event_bus, workflow.name.as_str(), &workflow.agents, &order, context)
            },
        }
    }
}

} // verus!
