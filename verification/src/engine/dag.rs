//! The order in which the agents of a workflow can run when each must wait
//! for the agents it depends on, and the agents that no such order reaches
//! (those on a dependency cycle, or depending on one).

use vstd::prelude::*;
use vstd::set_lib::{lemma_int_range, lemma_len_subset, set_int_range};
use crate::engine::types::AgentConfig;
use crate::text::str_eq;

verus! {

/// The ids of the agents at the positions `order`, in that order.
pub open spec fn ids_at(agents: Seq<AgentConfig>, order: Seq<usize>) -> Seq<Seq<char>> {
    order.map_values(|i: usize| agents[i as int].id@)
}

/// Every dependency of agent `i` is among `done`.
pub open spec fn deps_met(agents: Seq<AgentConfig>, i: int, done: Seq<Seq<char>>) -> bool {
    forall|j: int| 0 <= j < agents[i].depends_on@.len() ==> done.contains(#[trigger] agents[i].depends_on@[j]@)
}

/// `order` lists distinct agent positions, each agent after every agent that
/// it depends on.
pub open spec fn runs_in_order(agents: Seq<AgentConfig>, order: Seq<usize>) -> bool {
    &&& order.no_duplicates()
    &&& forall|p: int| 0 <= p < order.len() ==> (#[trigger] order[p]) < agents.len()
        && deps_met(agents, order[p] as int, ids_at(agents, order.take(p)))
}

/// `order` runs every agent once, each after the agents it depends on.
pub open spec fn is_dependency_order(agents: Seq<AgentConfig>, order: Seq<usize>) -> bool {
    &&& runs_in_order(agents, order)
    &&& forall|i: usize| (i as int) < agents.len() ==> order.contains(i)
}

/// The agents can all run, each after the agents it depends on: their
/// dependencies form no cycle.
pub open spec fn has_dependency_order(agents: Seq<AgentConfig>) -> bool {
    exists|order: Seq<usize>| is_dependency_order(agents, order)
}

/// Agent `i` can run at some point, all its dependencies having run before.
pub open spec fn reachable(agents: Seq<AgentConfig>, i: int) -> bool {
    exists|order: Seq<usize>| runs_in_order(agents, order) && order.contains(i as usize)
}

/// The ids, in agent order, of the first `n` agents that can never run.
pub open spec fn blocked_ids(agents: Seq<AgentConfig>, n: int) -> Seq<Seq<char>>
    decreases n,
{
    if n <= 0 {
        Seq::empty()
    } else if reachable(agents, n - 1) {
        blocked_ids(agents, n - 1)
    } else {
        blocked_ids(agents, n - 1).push(agents[n - 1].id@)
    }
}

/// Distinct positions below `n` are at most `n`.
proof fn lemma_distinct_below(s: Seq<usize>, n: int)
    requires
        0 <= n,
        s.no_duplicates(),
        forall|p: int| 0 <= p < s.len() ==> (#[trigger] s[p]) < n,
    ensures
        s.len() <= n,
{
    let t = s.map_values(|x: usize| x as int);
    assert forall|i: int, j: int| 0 <= i < t.len() && 0 <= j < t.len() && i != j implies t[i] != t[j] by {
        assert(s[i] != s[j]);
    }
    assert(t.no_duplicates());
    t.unique_seq_to_set();
    assert forall|x: int| t.to_set().contains(x) implies set_int_range(0, n).contains(x) by {
        let p = choose|p: int| 0 <= p < t.len() && t[p] == x;
        assert(s[p] < n);
    }
    lemma_int_range(0, n);
    lemma_len_subset(t.to_set(), set_int_range(0, n));
}

/// Appending an agent whose dependencies have all run keeps a run in order.
proof fn lemma_run_push(agents: Seq<AgentConfig>, order: Seq<usize>, i: usize)
    requires
        runs_in_order(agents, order),
        (i as int) < agents.len(),
        !order.contains(i),
        deps_met(agents, i as int, ids_at(agents, order)),
    ensures
        runs_in_order(agents, order.push(i)),
{
    let o2 = order.push(i);
    assert forall|a: int, b: int| 0 <= a < o2.len() && 0 <= b < o2.len() && a != b implies o2[a] != o2[b] by {
        if a == order.len() {
            assert(o2[b] == order[b]);
        } else if b == order.len() {
            assert(o2[a] == order[a]);
        } else {
            assert(o2[a] == order[a] && o2[b] == order[b]);
        }
    }
    assert forall|p: int| 0 <= p < o2.len() implies (#[trigger] o2[p]) < agents.len()
        && deps_met(agents, o2[p] as int, ids_at(agents, o2.take(p))) by {
        if p < order.len() {
            assert(o2.take(p) =~= order.take(p));
            assert(o2[p] == order[p]);
        } else {
            assert(o2.take(p) =~= order);
        }
    }
}

/// No run ever reaches an agent left out when `done` is the whole of what
/// could run: if every agent outside `done` has a dependency outside the
/// ids of `done`, the first `k` agents of any run are all in `done`.
proof fn lemma_run_stays_in(agents: Seq<AgentConfig>, done: Seq<usize>, o: Seq<usize>, k: int)
    requires
        forall|x: usize| (x as int) < agents.len() && !done.contains(x)
            ==> !deps_met(agents, x as int, ids_at(agents, done)),
        runs_in_order(agents, o),
        0 <= k <= o.len(),
    ensures
        forall|p: int| 0 <= p < k ==> done.contains(#[trigger] o[p]),
    decreases k,
{
    if k > 0 {
        lemma_run_stays_in(agents, done, o, k - 1);
        let q = k - 1;
        let x = o[q];
        assert(x < agents.len() && deps_met(agents, x as int, ids_at(agents, o.take(q))));
        assert forall|j: int| 0 <= j < agents[x as int].depends_on@.len() implies
            ids_at(agents, done).contains(#[trigger] agents[x as int].depends_on@[j]@) by {
            let d = agents[x as int].depends_on@[j]@;
            assert(ids_at(agents, o.take(q)).contains(d));
            let m = choose|m: int| 0 <= m < ids_at(agents, o.take(q)).len() && ids_at(agents, o.take(q))[m] == d;
            assert(o.take(q)[m] == o[m]);
            assert(done.contains(o[m]));
            let t = choose|t: int| 0 <= t < done.len() && done[t] == o[m];
            assert(ids_at(agents, done)[t] == d);
        }
        if !done.contains(x) {
            assert(!deps_met(agents, x as int, ids_at(agents, done)));
        }
    }
}

/// Whether `id` is the id of one of the agents at the positions `order`.
fn id_at_some(agents: &Vec<AgentConfig>, order: &Vec<usize>, id: &str) -> (r: bool)
    requires
        forall|p: int| 0 <= p < order@.len() ==> (#[trigger] order@[p]) < agents@.len(),
    ensures
        r == ids_at(agents@, order@).contains(id@),
{
    let ghost ids = ids_at(agents@, order@);
    let mut p: usize = 0;
    while p < order.len()
        invariant
            forall|q: int| 0 <= q < order@.len() ==> (#[trigger] order@[q]) < agents@.len(),
            ids == ids_at(agents@, order@),
            p <= order@.len(),
            forall|q: int| 0 <= q < p ==> ids[q] != id@,
        decreases order@.len() - p,
    {
        if str_eq(agents[order[p]].id.as_str(), id) {
            assert(ids[p as int] == id@);
            return true;
        }
        p = p + 1;
    }
    false
}

/// Whether every dependency of agent `i` is the id of an agent at one of
/// the positions `order`.
fn deps_all_done(agents: &Vec<AgentConfig>, i: usize, order: &Vec<usize>) -> (r: bool)
    requires
        i < agents@.len(),
        forall|p: int| 0 <= p < order@.len() ==> (#[trigger] order@[p]) < agents@.len(),
    ensures
        r == deps_met(agents@, i as int, ids_at(agents@, order@)),
{
    let deps = &agents[i].depends_on;
    let mut j: usize = 0;
    while j < deps.len()
        invariant
            i < agents@.len(),
            *deps == agents@[i as int].depends_on,
            forall|p: int| 0 <= p < order@.len() ==> (#[trigger] order@[p]) < agents@.len(),
            j <= deps@.len(),
            forall|q: int| 0 <= q < j ==> ids_at(agents@, order@).contains(#[trigger] deps@[q]@),
        decreases deps@.len() - j,
    {
        if !id_at_some(agents, order, deps[j].as_str()) {
            return false;
        }
        j = j + 1;
    }
    true
}

/// Orders the agents so that each runs after the agents it depends on:
/// repeatedly runs, in agent order, every agent whose dependencies have all
/// run, until no more can. Returns that order and the positions, ascending,
/// of the agents that never could run. Those are left exactly when the
/// dependencies form a cycle; with none left the order runs every agent.
pub fn dependency_order(agents: &Vec<AgentConfig>) -> (r: (Vec<usize>, Vec<usize>))
    ensures
        runs_in_order(agents@, r.0@),
        forall|x: usize| (x as int) < agents@.len() ==> (r.0@.contains(x) <==> reachable(agents@, x as int)),
        forall|x: usize| (x as int) < agents@.len() ==> (r.1@.contains(x) <==> !r.0@.contains(x)),
        forall|k: int| 0 <= k < r.1@.len() ==> (#[trigger] r.1@[k]) < agents@.len(),
        ids_at(agents@, r.1@) == blocked_ids(agents@, agents@.len() as int),
        (r.1@.len() == 0) <==> has_dependency_order(agents@),
        r.1@.len() == 0 ==> is_dependency_order(agents@, r.0@),
{
    let n = agents.len();
    let mut placed: Vec<bool> = Vec::new();
    let mut i: usize = 0;
    while i < n
        invariant
            n == agents@.len(),
            i <= n,
            placed@.len() == i,
            forall|q: int| 0 <= q < i ==> !(#[trigger] placed@[q]),
        decreases n - i,
    {
        placed.push(false);
        i = i + 1;
    }
    let mut order: Vec<usize> = Vec::new();
    let mut progress = true;
    while progress
        invariant
            n == agents@.len(),
            placed@.len() == n,
            runs_in_order(agents@, order@),
            order@.len() <= n,
            forall|x: usize| (x as int) < n ==> (placed@[x as int] <==> order@.contains(x)),
            !progress ==> forall|x: usize| (x as int) < n && !placed@[x as int]
                ==> !deps_met(agents@, x as int, ids_at(agents@, order@)),
        decreases 2 * (n - order@.len()) + (if progress { 1int } else { 0int }),
    {
        progress = false;
        let ghost start = order@;
        let mut i: usize = 0;
        while i < n
            invariant
                n == agents@.len(),
                placed@.len() == n,
                i <= n,
                runs_in_order(agents@, order@),
                order@.len() <= n,
                forall|x: usize| (x as int) < n ==> (placed@[x as int] <==> order@.contains(x)),
                start.len() <= order@.len(),
                progress ==> start.len() < order@.len(),
                !progress ==> order@ == start,
                !progress ==> forall|x: usize| (x as int) < i && !placed@[x as int]
                    ==> !deps_met(agents@, x as int, ids_at(agents@, order@)),
            decreases n - i,
        {
            if !placed[i] {
                if deps_all_done(agents, i, &order) {
                    proof {
                        lemma_run_push(agents@, order@, i);
                    }
                    let ghost before = order@;
                    order.push(i);
                    placed.set(i, true);
                    progress = true;
                    proof {
                        assert forall|x: usize| (x as int) < n implies (placed@[x as int] <==> order@.contains(x)) by {
                            if x == i {
                                assert(order@[before.len() as int] == i);
                            } else {
                                if before.contains(x) {
                                    let t = choose|t: int| 0 <= t < before.len() && before[t] == x;
                                    assert(order@[t] == x);
                                }
                                if order@.contains(x) {
                                    let t = choose|t: int| 0 <= t < order@.len() && order@[t] == x;
                                    assert(t < before.len());
                                    assert(before[t] == x);
                                }
                            }
                        }
                        lemma_distinct_below(order@, n as int);
                    }
                }
            }
            i = i + 1;
        }
    }
    // Which agents were placed is exactly which can ever run.
    proof {
        assert forall|x: usize| (x as int) < n implies (placed@[x as int] <==> reachable(agents@, x as int)) by {
            if placed@[x as int] {
                assert(runs_in_order(agents@, order@) && order@.contains(x));
            } else if reachable(agents@, x as int) {
                let o = choose|o: Seq<usize>| runs_in_order(agents@, o) && o.contains(x);
                lemma_run_stays_in(agents@, order@, o, o.len() as int);
                let p = choose|p: int| 0 <= p < o.len() && o[p] == x;
                assert(order@.contains(o[p]));
            }
        }
    }
    let mut stuck: Vec<usize> = Vec::new();
    let mut i: usize = 0;
    while i < n
        invariant
            n == agents@.len(),
            placed@.len() == n,
            i <= n,
            forall|x: usize| (x as int) < n ==> (placed@[x as int] <==> reachable(agents@, x as int)),
            forall|k: int| 0 <= k < stuck@.len() ==> (#[trigger] stuck@[k]) < i,
            forall|x: usize| x < i ==> (stuck@.contains(x) <==> !placed@[x as int]),
            ids_at(agents@, stuck@) == blocked_ids(agents@, i as int),
        decreases n - i,
    {
        let ghost before = stuck@;
        if !placed[i] {
            stuck.push(i);
            assert(ids_at(agents@, stuck@) =~= ids_at(agents@, before).push(agents@[i as int].id@));
        }
        proof {
            assert forall|x: usize| x < i + 1 implies (stuck@.contains(x) <==> !placed@[x as int]) by {
                if before.contains(x) {
                    let t = choose|t: int| 0 <= t < before.len() && before[t] == x;
                    assert(stuck@[t] == x);
                }
                if stuck@.contains(x) {
                    let t = choose|t: int| 0 <= t < stuck@.len() && stuck@[t] == x;
                    if t < before.len() {
                        assert(before[t] == x);
                    }
                }
                if x == i && !placed@[i as int] {
                    assert(stuck@[before.len() as int] == i);
                }
            }
        }
        i = i + 1;
    }
    proof {
        if stuck@.len() == 0 {
            assert forall|x: usize| (x as int) < agents@.len() implies order@.contains(x) by {
                if !placed@[x as int] {
                    assert(stuck@.contains(x));
                }
            }
            assert(is_dependency_order(agents@, order@));
        } else {
            let s = stuck@[0];
            assert(stuck@.contains(s));
            if has_dependency_order(agents@) {
                let o = choose|o: Seq<usize>| is_dependency_order(agents@, o);
                assert(o.contains(s));
                assert(reachable(agents@, s as int));
            }
        }
    }
    (order, stuck)
}

} // verus!
