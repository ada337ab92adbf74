//! Checks that a workflow definition is well formed.

use vstd::prelude::*;
use crate::engine::dag::{blocked_ids, dependency_order, has_dependency_order, ids_at, is_dependency_order};
use crate::engine::types::{AgentConfig, WorkflowDefinition};
use crate::error::{Error, debug_list, debug_list_text};
use crate::text::{concat, str_eq, string_views};

verus! {

/// The ids of the agents, in order.
pub open spec fn agent_ids(agents: Seq<AgentConfig>) -> Seq<Seq<char>> {
    agents.map_values(|a: AgentConfig| a.id@)
}

/// The ids, in order, that repeat an id met earlier in `ids` (one entry per
/// repetition).
pub open spec fn repeated_ids(ids: Seq<Seq<char>>) -> Seq<Seq<char>>
    decreases ids.len(),
{
    if ids.len() == 0 {
        Seq::empty()
    } else if ids.drop_last().contains(ids.last()) {
        repeated_ids(ids.drop_last()).push(ids.last())
    } else {
        repeated_ids(ids.drop_last())
    }
}

/// Nothing repeats exactly when no id occurs twice.
pub proof fn lemma_repeated_ids_empty(ids: Seq<Seq<char>>)
    ensures
        (repeated_ids(ids).len() == 0) == ids.no_duplicates(),
    decreases ids.len(),
{
    if ids.len() > 0 {
        let init = ids.drop_last();
        lemma_repeated_ids_empty(init);
        if init.contains(ids.last()) {
            let j = choose|j: int| 0 <= j < init.len() && init[j] == ids.last();
            assert(ids[j] == ids[ids.len() - 1]);
        } else if init.no_duplicates() {
            assert forall|i: int, j: int|
                0 <= i < ids.len() && 0 <= j < ids.len() && i != j implies ids[i] != ids[j] by {
                if i == ids.len() - 1 {
                    assert(init[j] == ids[j]);
                } else if j == ids.len() - 1 {
                    assert(init[i] == ids[i]);
                } else {
                    assert(init[i] == ids[i] && init[j] == ids[j]);
                }
            }
        } else {
            let (i, j) = choose|i: int, j: int|
                0 <= i < init.len() && 0 <= j < init.len() && i != j && init[i] == init[j];
            assert(ids[i] == ids[j]);
        }
    }
}

/// The first of `deps` that is not among `ids`.
pub open spec fn first_unknown(ids: Seq<Seq<char>>, deps: Seq<Seq<char>>) -> Option<Seq<char>>
    decreases deps.len(),
{
    if deps.len() == 0 {
        None
    } else if !ids.contains(deps[0]) {
        Some(deps[0])
    } else {
        first_unknown(ids, deps.drop_first())
    }
}

/// The first agent, in order, that depends on an id missing from `ids`,
/// together with the first such dependency: `(agent id, dependency)`.
pub open spec fn first_dangling(ids: Seq<Seq<char>>, agents: Seq<AgentConfig>) -> Option<(Seq<char>, Seq<char>)>
    decreases agents.len(),
{
    if agents.len() == 0 {
        None
    } else {
        match first_unknown(ids, string_views(agents[0].depends_on@)) {
            Some(d) => Some((agents[0].id@, d)),
            None => first_dangling(ids, agents.drop_first()),
        }
    }
}

/// The reason given when ids repeat.
pub open spec fn duplicate_reason(ids: Seq<Seq<char>>) -> Seq<char> {
    "Duplicate agent IDs found: "@ + debug_list_text(repeated_ids(ids))
}

/// The reason given for a dependency on an unknown agent.
pub open spec fn dangling_reason(agent: Seq<char>, dep: Seq<char>) -> Seq<char> {
    "Agent '"@ + agent + "' depends on non-existent agent '"@ + dep + "'"@
}

/// What the structural checks of a workflow's agents give: a repeated id,
/// then a dependency on an unknown agent, are refused.
pub open spec fn validation_outcome(agents: Seq<AgentConfig>) -> Result<(), Seq<char>> {
    let ids = agent_ids(agents);
    if !ids.no_duplicates() {
        Err(duplicate_reason(ids))
    } else {
        match first_dangling(ids, agents) {
            Some(p) => Err(dangling_reason(p.0, p.1)),
            None => Ok(()),
        }
    }
}

/// The workflow's agents pass every check: ids distinct, dependencies
/// known, and no dependency cycle.
pub open spec fn workflow_valid(agents: Seq<AgentConfig>) -> bool {
    validation_outcome(agents) is Ok && has_dependency_order(agents)
}

/// `r` is what validating the agents gives: the error of the first check
/// that fails (a repeated id, then an unknown dependency, then a cycle,
/// listing in agent order the agents that can never run), or `Ok`.
pub open spec fn validation_verdict(agents: Seq<AgentConfig>, r: Result<(), Error>) -> bool {
    match validation_outcome(agents) {
        Ok(_) => if has_dependency_order(agents) {
            r is Ok
        } else {
            r matches Err(Error::CircularDependency { agents: c })
                && string_views(c@) == blocked_ids(agents, agents.len() as int)
        },
        Err(reason) => r matches Err(Error::InvalidWorkflowDefinition { reason: m }) && m@ == reason,
    }
}

/// No dependency is unknown exactly when every dependency is among `ids`.
pub proof fn lemma_first_unknown_none(ids: Seq<Seq<char>>, deps: Seq<Seq<char>>)
    ensures
        (first_unknown(ids, deps) is None) <==> (forall|j: int| 0 <= j < deps.len() ==> ids.contains(#[trigger] deps[j])),
    decreases deps.len(),
{
    if deps.len() > 0 {
        let rest = deps.drop_first();
        lemma_first_unknown_none(ids, rest);
        if ids.contains(deps[0]) {
            assert forall|j: int| 0 <= j < rest.len() implies rest[j] == deps[j + 1] by {}
            if forall|j: int| 0 <= j < rest.len() ==> ids.contains(#[trigger] rest[j]) {
                assert forall|j: int| 0 <= j < deps.len() implies ids.contains(#[trigger] deps[j]) by {
                    if j > 0 {
                        assert(deps[j] == rest[j - 1]);
                    }
                }
            } else {
                let j = choose|j: int| 0 <= j < rest.len() && !ids.contains(#[trigger] rest[j]);
                assert(deps[j + 1] == rest[j]);
            }
        }
    }
}

/// No agent has an unknown dependency exactly when every dependency of every
/// agent is among `ids`.
pub proof fn lemma_first_dangling_none(ids: Seq<Seq<char>>, agents: Seq<AgentConfig>)
    ensures
        (first_dangling(ids, agents) is None) <==> (forall|i: int, j: int|
            0 <= i < agents.len() && 0 <= j < agents[i].depends_on@.len()
                ==> ids.contains(#[trigger] agents[i].depends_on@[j]@)),
    decreases agents.len(),
{
    if agents.len() > 0 {
        let rest = agents.drop_first();
        let dv = string_views(agents[0].depends_on@);
        lemma_first_unknown_none(ids, dv);
        lemma_first_dangling_none(ids, rest);
        if first_unknown(ids, dv) is None {
            if forall|i: int, j: int|
                0 <= i < rest.len() && 0 <= j < rest[i].depends_on@.len()
                    ==> ids.contains(#[trigger] rest[i].depends_on@[j]@) {
                assert forall|i: int, j: int|
                    0 <= i < agents.len() && 0 <= j < agents[i].depends_on@.len()
                        implies ids.contains(#[trigger] agents[i].depends_on@[j]@) by {
                    if i == 0 {
                        assert(dv[j] == agents[0].depends_on@[j]@);
                    } else {
                        assert(agents[i] == rest[i - 1]);
                        assert(ids.contains(rest[i - 1].depends_on@[j]@));
                    }
                }
            } else {
                let (i, j) = choose|i: int, j: int|
                    0 <= i < rest.len() && 0 <= j < rest[i].depends_on@.len()
                        && !ids.contains(#[trigger] rest[i].depends_on@[j]@);
                assert(agents[i + 1] == rest[i]);
                assert(!ids.contains(agents[i + 1].depends_on@[j]@));
            }
        } else {
            let j = choose|j: int| 0 <= j < dv.len() && !ids.contains(#[trigger] dv[j]);
            assert(dv[j] == agents[0].depends_on@[j]@);
            assert(!ids.contains(agents[0].depends_on@[j]@));
        }
    }
}

/// A workflow passes validation exactly when its agent ids are distinct,
/// every dependency of every agent names an agent of the workflow, and its
/// agents can all run, each after every agent it depends on.
pub proof fn law_valid_workflow_is_closed(agents: Seq<AgentConfig>)
    ensures
        (validation_outcome(agents) is Ok) <==> (agent_ids(agents).no_duplicates() && forall|i: int, j: int|
            0 <= i < agents.len() && 0 <= j < agents[i].depends_on@.len()
                ==> agent_ids(agents).contains(#[trigger] agents[i].depends_on@[j]@)),
        workflow_valid(agents) <==> (validation_outcome(agents) is Ok && exists|order: Seq<usize>|
            is_dependency_order(agents, order)),
{
    lemma_first_dangling_none(agent_ids(agents), agents);
}

/// Whether `id` is the id of one of the first `n` agents.
fn id_among(agents: &Vec<AgentConfig>, n: usize, id: &str) -> (r: bool)
    requires
        n <= agents@.len(),
    ensures
        r == agent_ids(agents@).take(n as int).contains(id@),
{
    let ghost ids = agent_ids(agents@);
    let mut i: usize = 0;
    while i < n
        invariant
            n <= agents@.len(),
            ids == agent_ids(agents@),
            i <= n,
            forall|j: int| 0 <= j < i ==> ids[j] != id@,
        decreases n - i,
    {
        if str_eq(agents[i].id.as_str(), id) {
            assert(ids.take(n as int)[i as int] == id@);
            return true;
        }
        i = i + 1;
    }
    assert forall|j: int| 0 <= j < n implies ids.take(n as int)[j] != id@ by {
        assert(ids.take(n as int)[j] == ids[j]);
    }
    false
}

/// Parses and checks workflow definitions.
pub struct WorkflowParser;

impl WorkflowParser {
    /// Checks a workflow: agent ids are unique, then every dependency names an
    /// agent of the workflow, then the dependencies form no cycle (the error
    /// then lists, in agent order, the agents that can never run).
    pub fn validate(workflow: &WorkflowDefinition) -> (r: Result<(), Error>)
        ensures
            validation_verdict(workflow.agents@, r),
            r is Ok <==> workflow_valid(workflow.agents@),
    {
        proof {
            lemma_repeated_ids_empty(agent_ids(workflow.agents@));
        }
        match Self::validate_unique_agent_ids(workflow) {
            Err(e) => return Err(e),
            Ok(()) => {},
        }
        match Self::validate_dependencies(workflow) {
            Err(e) => return Err(e),
            Ok(()) => {},
        }
        let agents = &workflow.agents;
        let (_, stuck) = dependency_order(agents);
        if stuck.len() == 0 {
            return Ok(());
        }
        let mut cyclic: Vec<String> = Vec::new();
        let mut k: usize = 0;
        while k < stuck.len()
            invariant
                forall|q: int| 0 <= q < stuck@.len() ==> (#[trigger] stuck@[q]) < agents@.len(),
                k <= stuck@.len(),
                string_views(cyclic@) == ids_at(agents@, stuck@.take(k as int)),
            decreases stuck@.len() - k,
        {
            let ghost before = cyclic@;
            let id = agents[stuck[k]].id.clone();
            cyclic.push(id);
            assert(stuck@.take(k + 1) =~= stuck@.take(k as int).push(stuck@[k as int]));
            assert(ids_at(agents@, stuck@.take(k + 1)) =~= ids_at(agents@, stuck@.take(k as int)).push(
                agents@[stuck@[k as int] as int].id@));
            assert(string_views(cyclic@) =~= string_views(before).push(id@));
            k = k + 1;
        }
        assert(stuck@.take(k as int) =~= stuck@);
        Err(Error::CircularDependency { agents: cyclic })
    }

    /// Fails when an agent id occurs twice, listing every repetition.
    pub fn validate_unique_agent_ids(workflow: &WorkflowDefinition) -> (r: Result<(), Error>)
        ensures
            ({
                let ids = agent_ids(workflow.agents@);
                match r {
                    Ok(_) => repeated_ids(ids).len() == 0,
                    Err(Error::InvalidWorkflowDefinition { reason }) =>
                        repeated_ids(ids).len() > 0 && reason@ == duplicate_reason(ids),
                    Err(_) => false,
                }
            }),
    {
        let ghost ids = agent_ids(workflow.agents@);
        let agents = &workflow.agents;
        let mut duplicates: Vec<String> = Vec::new();
        let mut i: usize = 0;
        while i < agents.len()
            invariant
                ids == agent_ids(agents@),
                i <= agents@.len(),
                string_views(duplicates@) == repeated_ids(ids.take(i as int)),
            decreases agents@.len() - i,
        {
            let id = agents[i].id.as_str();
            let seen = id_among(agents, i, id);
            let ghost before = duplicates@;
            assert(ids.take(i + 1).drop_last() =~= ids.take(i as int));
            assert(ids.take(i + 1).last() == id@);
            if seen {
                duplicates.push(agents[i].id.clone());
                assert(string_views(duplicates@) =~= string_views(before).push(id@));
            }
            i = i + 1;
        }
        assert(ids.take(i as int) =~= ids);
        if duplicates.len() > 0 {
            let listed = debug_list(&duplicates);
            return Err(Error::InvalidWorkflowDefinition {
                reason: concat("Duplicate agent IDs found: ", listed.as_str()),
            });
        }
        Ok(())
    }

    /// Fails on the first agent, in order, with a dependency that names no
    /// agent of the workflow.
    pub fn validate_dependencies(workflow: &WorkflowDefinition) -> (r: Result<(), Error>)
        ensures
            match first_dangling(agent_ids(workflow.agents@), workflow.agents@) {
                None => r is Ok,
                Some(p) => r matches Err(Error::InvalidWorkflowDefinition { reason })
                    && reason@ == dangling_reason(p.0, p.1),
            },
    {
        let ghost ids = agent_ids(workflow.agents@);
        let agents = &workflow.agents;
        let n = agents.len();
        let mut i: usize = 0;
        assert(agents@.skip(0) =~= agents@);
        while i < n
            invariant
                agents@ == workflow.agents@,
                n == agents@.len(),
                ids == agent_ids(agents@),
                i <= n,
                first_dangling(ids, agents@) == first_dangling(ids, agents@.skip(i as int)),
            decreases n - i,
        {
            let agent = &agents[i];
            let deps = &agent.depends_on;
            let ghost dv = string_views(deps@);
            assert(agents@.skip(i as int)[0] == *agent);
            assert(agents@.skip(i as int).drop_first() =~= agents@.skip(i + 1));
            let mut k: usize = 0;
            assert(dv.skip(0) =~= dv);
            while k < deps.len()
                invariant
                    agents@ == workflow.agents@,
                    n == agents@.len(),
                    ids == agent_ids(agents@),
                    i < n,
                    dv == string_views(deps@),
                    *deps == agents@[i as int].depends_on,
                    *agent == agents@[i as int],
                    agents@.skip(i as int)[0] == agents@[i as int],
                    first_dangling(ids, agents@) == first_dangling(ids, agents@.skip(i as int)),
                    k <= deps@.len(),
                    first_unknown(ids, dv) == first_unknown(ids, dv.skip(k as int)),
                decreases deps@.len() - k,
            {
                let dep = deps[k].as_str();
                assert(dv.skip(k as int)[0] == dep@);
                assert(dv.skip(k as int).drop_first() =~= dv.skip(k + 1));
                assert(ids.take(n as int) =~= ids);
                if !id_among(agents, n, dep) {
                    let a = concat("Agent '", agent.id.as_str());
                    let b = concat(a.as_str(), "' depends on non-existent agent '");
                    let c = concat(b.as_str(), dep);
                    let reason = concat(c.as_str(), "'");
                    assert(first_unknown(ids, string_views(agents@.skip(i as int)[0].depends_on@)) == Some(dep@));
                    return Err(Error::InvalidWorkflowDefinition { reason });
                }
                k = k + 1;
            }
            assert(dv.skip(k as int).len() == 0);
            i = i + 1;
        }
        assert(agents@.skip(i as int).len() == 0);
        Ok(())
    }
}

} // verus!
