//! Checks made on workflow definitions submitted over the HTTP interface.

use vstd::prelude::*;
use crate::api::error::ApiError;
use crate::engine::parser::{agent_ids, repeated_ids, lemma_repeated_ids_empty};
use crate::engine::types::WorkflowDefinition;
use crate::text::{concat, owned, str_eq};

verus! {

/// What checking a submitted workflow gives: the first agent id that
/// repeats an earlier one, else an error for a workflow without agents.
pub open spec fn submission_check(ids: Seq<Seq<char>>) -> Result<(), Seq<char>> {
    if repeated_ids(ids).len() > 0 {
        Err("Duplicate agent ID: "@ + repeated_ids(ids)[0])
    } else if ids.len() == 0 {
        Err("Workflow must have at least one agent"@)
    } else {
        Ok(())
    }
}

/// The first repetition is found by scanning the ids in order.
proof fn lemma_first_repeat(ids: Seq<Seq<char>>, i: int)
    requires
        0 <= i < ids.len(),
        ids.take(i).contains(ids[i]),
        repeated_ids(ids.take(i)).len() == 0,
    ensures
        repeated_ids(ids).len() > 0,
        repeated_ids(ids)[0] == ids[i],
    decreases ids.len(),
{
    if ids.len() == i + 1 {
        assert(ids.drop_last() =~= ids.take(i));
    } else {
        assert(ids.drop_last().take(i) =~= ids.take(i));
        lemma_first_repeat(ids.drop_last(), i);
    }
}

/// Checks a submitted workflow (see `submission_check`).
pub fn validate_workflow(definition: &WorkflowDefinition) -> (r: Result<(), String>)
    ensures
        match submission_check(agent_ids(definition.agents@)) {
            Ok(_) => r is Ok,
            Err(m) => r matches Err(s) && s@ == m,
        },
{
    let ghost ids = agent_ids(definition.agents@);
    let agents = &definition.agents;
    let mut i: usize = 0;
    while i < agents.len()
        invariant
            agents@ == definition.agents@,
            ids == agent_ids(agents@),
            i <= agents@.len(),
            repeated_ids(ids.take(i as int)).len() == 0,
        decreases agents@.len() - i,
    {
        let mut j: usize = 0;
        let mut seen = false;
        while j < i
            invariant
                agents@ == definition.agents@,
                ids == agent_ids(agents@),
                i < agents@.len(),
                j <= i,
                seen == exists|k: int| 0 <= k < j && ids[k] == ids[i as int],
            decreases i - j,
        {
            let same = str_eq(agents[j].id.as_str(), agents[i].id.as_str());
            assert(same == (ids[j as int] == ids[i as int]));
            if same {
                seen = true;
            }
            j = j + 1;
        }
        assert(ids.take(i as int).contains(ids[i as int]) == seen) by {
            if seen {
                let k = choose|k: int| 0 <= k < i && ids[k] == ids[i as int];
                assert(ids.take(i as int)[k] == ids[i as int]);
            }
            if ids.take(i as int).contains(ids[i as int]) {
                let k = choose|k: int| 0 <= k < i && ids.take(i as int)[k] == ids[i as int];
                assert(ids[k] == ids[i as int]);
            }
        }
        if seen {
            proof {
                lemma_first_repeat(ids, i as int);
            }
            return Err(concat("Duplicate agent ID: ", agents[i].id.as_str()));
        }
        assert(ids.take(i + 1).drop_last() =~= ids.take(i as int));
        i = i + 1;
    }
    assert(ids.take(i as int) =~= ids);
    if agents.len() == 0 {
        return Err(owned("Workflow must have at least one agent"));
    }
    Ok(())
}

/// The check made when a workflow is created: a failed check is a bad
/// request, `Invalid workflow: {reason}`.
pub fn check_new_workflow(definition: &WorkflowDefinition) -> (r: Result<(), ApiError>)
    ensures
        match submission_check(agent_ids(definition.agents@)) {
            Ok(_) => r is Ok,
            Err(m) => r matches Err(e) && e.code@ == "BAD_REQUEST"@ && e.message@ == "Invalid workflow: "@ + m,
        },
{
    match validate_workflow(definition) {
        Ok(()) => Ok(()),
        Err(m) => {
            let msg = concat("Invalid workflow: ", m.as_str());
            Err(ApiError::bad_request(msg.as_str()))
        },
    }
}

} // verus!
