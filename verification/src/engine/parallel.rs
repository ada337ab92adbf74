//! Running independent agents, each on its own, with their outputs kept in
//! agent order.

use vstd::prelude::*;
use std::sync::Arc;
use crate::engine::events::{AgentEvent, EventBus};
use crate::engine::executor::step_logged;
use crate::engine::types::{AgentConfig, ExecutionContext};
use crate::error::Error;
use crate::text::concat;

verus! {

/// What an agent run side by side with others reports for its task.
pub open spec fn agent_report(id: Seq<char>, task: Seq<char>) -> Seq<char> {
    "Agent "@ + id + " completed task: "@ + task
}

/// The reports of the agents, in order.
pub open spec fn reports_of(outputs: Seq<String>, agents: Seq<AgentConfig>) -> bool {
    &&& outputs.len() == agents.len()
    &&& forall|k: int| 0 <= k < agents.len() ==> (#[trigger] outputs[k])@ == agent_report(agents[k].id@, agents[k].task@)
}

/// The events of a run of `agents`: for each agent in turn, that it
/// started its task, then that it completed with its report.
pub open spec fn parallel_log(events: Seq<AgentEvent>, agents: Seq<AgentConfig>) -> bool {
    &&& events.len() == 2 * agents.len()
    &&& forall|k: int| 0 <= k < agents.len() ==> #[trigger] step_logged(events, k, agents[k].id@, agents[k].task@,
        agent_report(agents[k].id@, agents[k].task@))
}

/// Runs agents independently of one another; their outputs come back in
/// the order of the agents.
pub struct ParallelExecutor {
    event_bus: EventBus,
}

impl ParallelExecutor {
    /// The events this executor has published, in order.
    pub closed spec fn sent(&self) -> Seq<AgentEvent> {
        self.event_bus.sent()
    }

    /// An executor that publishes its events on the channel of `event_bus`.
    pub fn new(event_bus: Arc<EventBus>) -> (r: Self)
        ensures
            r.sent() == Seq::<AgentEvent>::empty(),
    {
        ParallelExecutor { event_bus: event_bus.handle() }
    }

    /// Runs the agents, publishing on `bus` for each in turn that it
    /// started, then that it completed with its report; the reports come
    /// back in order.
    pub(crate) fn run_on(bus: &mut EventBus, agents: &Vec<AgentConfig>) -> (outs: Vec<String>)
        ensures
            reports_of(outs@, agents@),
            exists|events: Seq<AgentEvent>| final(bus).sent() == old(bus).sent() + events && parallel_log(events, agents@),
    {
        let ghost sent0 = bus.sent();
        let ghost mut events: Seq<AgentEvent> = Seq::empty();
        let mut outputs: Vec<String> = Vec::new();
        let mut i: usize = 0;
        while i < agents.len()
            invariant
                i <= agents@.len(),
                sent0 == old(bus).sent(),
                bus.sent() == sent0 + events,
                events.len() == 2 * i,
                forall|k: int| 0 <= k < i ==> #[trigger] step_logged(events, k, agents@[k].id@, agents@[k].task@,
                    agent_report(agents@[k].id@, agents@[k].task@)),
                outputs@.len() == i,
                forall|k: int| 0 <= k < i ==> (#[trigger] outputs@[k])@ == agent_report(agents@[k].id@, agents@[k].task@),
            decreases agents@.len() - i,
        {
            let agent = &agents[i];
            let ghost sent_before = bus.sent();
            let _ = bus.publish(AgentEvent::TaskStarted { agent_id: agent.id.clone(), task: agent.task.clone() });
            let a = concat("Agent ", agent.id.as_str());
            let b = concat(a.as_str(), " completed task: ");
            let output = concat(b.as_str(), agent.task.as_str());
            let _ = bus.publish(AgentEvent::TaskCompleted { agent_id: agent.id.clone(), output: output.clone() });
            proof {
                let old_events = events;
                events = events.push(bus.sent()[sent_before.len() as int]).push(bus.sent()[(sent_before.len() + 1) as int]);
                assert(bus.sent() =~= sent0 + events);
                assert forall|k: int| 0 <= k < i + 1 implies #[trigger] step_logged(events, k, agents@[k].id@, agents@[k].task@,
                    agent_report(agents@[k].id@, agents@[k].task@)) by {
                    if k < i {
                        assert(step_logged(old_events, k, agents@[k].id@, agents@[k].task@,
                            agent_report(agents@[k].id@, agents@[k].task@)));
                        assert(events[2 * k] == old_events[2 * k] && events[2 * k + 1] == old_events[2 * k + 1]);
                    }
                }
            }
            outputs.push(output);
            i = i + 1;
        }
        assert(parallel_log(events, agents@));
        outputs
    }

    /// The reports of the agents, in order, each agent's events published
    /// in turn.
    pub fn run_agents(&mut self, agents: &Vec<AgentConfig>) -> (outs: Vec<String>)
        ensures
            reports_of(outs@, agents@),
            exists|events: Seq<AgentEvent>| final(self).sent() == old(self).sent() + events && parallel_log(events, agents@),
    {
        Self::run_on(&mut self.event_bus, agents)
    }

    /// Runs the agents; every one succeeds with its report. For each agent
    /// in turn it publishes that the agent started its task, then that it
    /// completed with its report.
    pub fn execute(&mut self, agents: Vec<AgentConfig>, context: &ExecutionContext) -> (r: Result<Vec<String>, Error>)
        ensures
            r matches Ok(outs) && reports_of(outs@, agents@),
            exists|events: Seq<AgentEvent>| final(self).sent() == old(self).sent() + events && parallel_log(events, agents@),
    {
        Ok(self.run_agents(&agents))
    }
}

} // verus!
