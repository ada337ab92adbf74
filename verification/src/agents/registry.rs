//! The agents known to a run, each kept under its id with its type.

use vstd::prelude::*;
use crate::agents::types::duplicate_agent_error;
use crate::error::Error;
use crate::registry::Registry;
use crate::text::str_eq;

verus! {

/// The agents among `entries` (type, agent) whose type is `agent_type`, in order.
pub open spec fn agents_of_type<A>(entries: Seq<(String, A)>, agent_type: Seq<char>) -> Seq<A>
    decreases entries.len(),
{
    if entries.len() == 0 {
        Seq::empty()
    } else {
        let rest = agents_of_type(entries.drop_last(), agent_type);
        if entries.last().0@ == agent_type {
            rest.push(entries.last().1)
        } else {
            rest
        }
    }
}

/// The items of `items` whose answer in `answers` is `true`, in order.
pub open spec fn picked<A>(items: Seq<A>, answers: Seq<bool>) -> Seq<A>
    decreases items.len(),
{
    if items.len() == 0 || answers.len() != items.len() {
        Seq::empty()
    } else {
        let rest = picked(items.drop_last(), answers.drop_last());
        if answers.last() {
            rest.push(items.last())
        } else {
            rest
        }
    }
}

/// Agents kept by id; each is kept with its type so that agents of one type
/// can be found.
pub struct AgentRegistry<A> {
    agents: Registry<(String, A)>,
}

impl<A> AgentRegistry<A> {
    /// The type and the agent kept under each id.
    pub closed spec fn view(&self) -> Map<Seq<char>, (String, A)> {
        self.agents.view()
    }

    /// The ids, in the order they were registered.
    pub closed spec fn order(&self) -> Seq<Seq<char>> {
        self.agents.order()
    }

    /// The kept (type, agent) pairs, in the order they were registered.
    pub open spec fn listed(&self) -> Seq<(String, A)> {
        self.order().map_values(|id: Seq<char>| self.view()[id])
    }

    /// An empty registry.
    pub fn new() -> (r: Self)
        ensures
            r.view() == Map::<Seq<char>, (String, A)>::empty(),
    {
        AgentRegistry { agents: Registry::new() }
    }

    /// Registers `agent` of type `agent_type` under `id`; an id that is taken
    /// is refused and nothing changes.
    pub fn register(&mut self, id: &str, agent_type: &str, agent: A) -> (r: Result<(), Error>)
        ensures
            old(self).view().contains_key(id@) ==> final(self).view() == old(self).view()
                && (r matches Err(Error::InvalidWorkflowDefinition { reason })
                && reason@ == "Agent with id '"@ + id@ + "' is already registered"@),
            !old(self).view().contains_key(id@) ==> r is Ok && final(self).view().dom()
                == old(self).view().dom().insert(id@) && final(self).view()[id@].0@ == agent_type@
                && final(self).view()[id@].1 == agent
                && forall|k: Seq<char>| k != id@ && old(self).view().contains_key(k)
                    ==> #[trigger] final(self).view()[k] == old(self).view()[k],
    {
        let kept = (crate::text::owned(agent_type), agent);
        match self.agents.insert_new(id, kept) {
            Ok(()) => {
                assert(self.view().dom() =~= old(self).view().dom().insert(id@));
                Ok(())
            },
            Err(_) => Err(duplicate_agent_error(id)),
        }
    }

    /// The agent registered under `id`, if any.
    pub fn get(&self, id: &str) -> (r: Option<&A>)
        ensures
            match r {
                Some(a) => self.view().contains_key(id@) && self.view()[id@].1 == *a,
                None => !self.view().contains_key(id@),
            },
    {
        match self.agents.get(id) {
            Some(kept) => Some(&kept.1),
            None => None,
        }
    }

    /// Whether an agent is registered under `id`.
    pub fn contains(&self, id: &str) -> (r: bool)
        ensures
            r == self.view().contains_key(id@),
    {
        self.agents.contains(id)
    }

    /// The registered ids, in the order they were registered.
    pub fn agent_ids(&self) -> (r: Vec<String>)
        ensures
            r@.map_values(|s: String| s@) == self.order(),
            r@.map_values(|s: String| s@).to_set() == self.view().dom(),
    {
        self.agents.names()
    }

    /// Number of registered agents.
    pub fn len(&self) -> (n: usize)
        ensures
            n == self.view().len(),
    {
        self.agents.len()
    }

    /// Whether no agent is registered.
    pub fn is_empty(&self) -> (b: bool)
        ensures
            b == (self.view().len() == 0),
    {
        self.agents.is_empty()
    }

    /// Removes and hands back the agent registered under `id`, if any.
    pub fn unregister(&mut self, id: &str) -> (r: Option<A>)
        ensures
            match r {
                Some(a) => old(self).view().contains_key(id@) && old(self).view()[id@].1 == a,
                None => !old(self).view().contains_key(id@),
            },
            final(self).view() == old(self).view().remove(id@),
    {
        match self.agents.remove(id) {
            Some(kept) => Some(kept.1),
            None => None,
        }
    }

    /// Removes every agent.
    pub fn clear(&mut self)
        ensures
            final(self).view() == Map::<Seq<char>, (String, A)>::empty(),
    {
        self.agents.clear();
    }

    /// The registered agents, in the order they were registered.
    pub fn agents(&self) -> (r: Vec<&A>)
        ensures
            r@.len() == self.listed().len(),
            forall|k: int| 0 <= k < r@.len() ==> *(#[trigger] r@[k]) == self.listed()[k].1,
    {
        let kept = self.agents.values();
        let mut out: Vec<&A> = Vec::new();
        let mut i: usize = 0;
        while i < kept.len()
            invariant
                kept@.len() == self.listed().len(),
                forall|k: int| 0 <= k < kept@.len() ==> *(#[trigger] kept@[k]) == self.listed()[k],
                i <= kept@.len(),
                out@.len() == i,
                forall|k: int| 0 <= k < i ==> *(#[trigger] out@[k]) == self.listed()[k].1,
            decreases kept@.len() - i,
        {
            out.push(&kept[i].1);
            i = i + 1;
        }
        out
    }

    /// The registered agents of type `agent_type`, in the order they were
    /// registered.
    pub fn find_by_type(&self, agent_type: &str) -> (r: Vec<&A>)
        ensures
            r@.len() == agents_of_type(self.listed(), agent_type@).len(),
            forall|k: int| 0 <= k < r@.len() ==> *(#[trigger] r@[k]) == agents_of_type(self.listed(), agent_type@)[k],
    {
        let ghost listed = self.listed();
        let kept = self.agents.values();
        let mut out: Vec<&A> = Vec::new();
        let mut i: usize = 0;
        while i < kept.len()
            invariant
                listed == self.listed(),
                kept@.len() == listed.len(),
                forall|k: int| 0 <= k < kept@.len() ==> *(#[trigger] kept@[k]) == listed[k],
                i <= kept@.len(),
                out@.len() == agents_of_type(listed.take(i as int), agent_type@).len(),
                forall|k: int| 0 <= k < out@.len() ==> *(#[trigger] out@[k])
                    == agents_of_type(listed.take(i as int), agent_type@)[k],
            decreases kept@.len() - i,
        {
            let entry = kept[i];
            assert(listed.take(i + 1).drop_last() =~= listed.take(i as int));
            assert(listed.take(i + 1).last() == listed[i as int]);
            if str_eq(entry.0.as_str(), agent_type) {
                out.push(&entry.1);
            }
            i = i + 1;
        }
        assert(listed.take(i as int) =~= listed);
        out
    }

    /// The registered agents that `can_handle` accepts, in the order they were
    /// registered; `can_handle` is asked once about each agent, and `answers`
    /// below are its replies.
    pub fn find_capable<F: Fn(&A) -> bool>(&self, can_handle: F) -> (r: Vec<&A>)
        requires
            forall|a: &A| can_handle.requires((a,)),
        ensures
            exists|answers: Seq<bool>| {
                &&& answers.len() == self.listed().len()
                &&& forall|k: int| 0 <= k < answers.len() ==> can_handle.ensures((&self.listed()[k].1,), #[trigger] answers[k])
                &&& r@.len() == picked(self.listed().map_values(|e: (String, A)| e.1), answers).len()
                &&& forall|k: int| 0 <= k < r@.len() ==> *(#[trigger] r@[k])
                    == picked(self.listed().map_values(|e: (String, A)| e.1), answers)[k]
            },
    {
        let ghost listed = self.listed();
        let ghost items = listed.map_values(|e: (String, A)| e.1);
        let kept = self.agents.values();
        let mut out: Vec<&A> = Vec::new();
        let ghost mut answers: Seq<bool> = Seq::empty();
        let mut i: usize = 0;
        while i < kept.len()
            invariant
                forall|a: &A| can_handle.requires((a,)),
                listed == self.listed(),
                items == listed.map_values(|e: (String, A)| e.1),
                kept@.len() == listed.len(),
                forall|k: int| 0 <= k < kept@.len() ==> *(#[trigger] kept@[k]) == listed[k],
                i <= kept@.len(),
                answers.len() == i,
                forall|k: int| 0 <= k < i ==> can_handle.ensures((&listed[k].1,), #[trigger] answers[k]),
                out@.len() == picked(items.take(i as int), answers).len(),
                forall|k: int| 0 <= k < out@.len() ==> *(#[trigger] out@[k])
                    == picked(items.take(i as int), answers)[k],
            decreases kept@.len() - i,
        {
            let entry = kept[i];
            let yes = can_handle(&entry.1);
            let ghost prev = answers;
            proof {
                answers = answers.push(yes);
            }
            assert(items.take(i + 1).drop_last() =~= items.take(i as int));
            assert(answers.drop_last() =~= prev);
            assert(items.take(i + 1).last() == entry.1);
            if yes {
                out.push(&entry.1);
            }
            i = i + 1;
        }
        assert(items.take(i as int) =~= items);
        out
    }
}

impl<A> Default for AgentRegistry<A> {
    fn default() -> (r: Self)
        ensures
            r.view() == Map::<Seq<char>, (String, A)>::empty(),
    {
        Self::new()
    }
}

} // verus!
