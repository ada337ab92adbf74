//! Workflow definitions and the execution context.

use vstd::prelude::*;
use crate::json::JsonValue;
use crate::text::{owned, str_eq};

verus! {

/// One agent step of a workflow.
#[derive(Debug)]
pub struct AgentConfig {
    pub id: String,
    pub agent_type: String,
    pub task: String,
    pub depends_on: Vec<String>,
    pub config: Vec<(String, JsonValue)>,
}

/// A declared input of a workflow.
#[derive(Debug)]
pub struct InputDefinition {
    pub name: String,
    pub input_type: String,
    pub required: bool,
    pub default: Option<JsonValue>,
}

/// How the agents of a workflow are run.
#[derive(Debug, Clone, Copy, PartialEq, Eq, Structural)]
pub enum ExecutionMode {
    Sequential,
    Parallel,
    Dag,
}

/// A workflow: a named list of agents and how they run.
#[derive(Debug)]
pub struct WorkflowDefinition {
    pub name: String,
    pub mode: ExecutionMode,
    pub agents: Vec<AgentConfig>,
    pub inputs: Option<Vec<InputDefinition>>,
}

/// Lifecycle state of a workflow execution or of one of its steps.
#[derive(Debug, Clone, Copy, PartialEq, Eq, Structural)]
pub enum ExecutionStatus {
    Pending,
    Running,
    Completed,
    Failed,
    Cancelled,
}

/// A record of one workflow execution; times are Unix timestamps in seconds.
#[derive(Debug)]
pub struct WorkflowExecution {
    pub id: u128,
    pub workflow_id: String,
    pub status: ExecutionStatus,
    pub started_at: i64,
    pub completed_at: Option<i64>,
    pub error: Option<String>,
}

/// A record of one step of an execution; times are Unix timestamps in seconds.
#[derive(Debug)]
pub struct Step {
    pub agent_id: String,
    pub status: ExecutionStatus,
    pub started_at: Option<i64>,
    pub completed_at: Option<i64>,
    pub output: Option<JsonValue>,
    pub error: Option<String>,
}

/// The value stored under `key`: the first entry with that key.
pub open spec fn lookup(store: Seq<(String, JsonValue)>, key: Seq<char>) -> Option<JsonValue>
    decreases store.len(),
{
    if store.len() == 0 {
        None
    } else if store[0].0@ == key {
        Some(store[0].1)
    } else {
        lookup(store.drop_first(), key)
    }
}

/// The keys of a store, in order.
pub open spec fn store_keys(store: Seq<(String, JsonValue)>) -> Seq<Seq<char>> {
    store.map_values(|e: (String, JsonValue)| e.0@)
}

/// No key occurs twice in the store.
pub open spec fn keys_distinct(store: Seq<(String, JsonValue)>) -> bool {
    forall|i: int, j: int|
        0 <= i < store.len() && 0 <= j < store.len() && i != j ==> store[i].0@ != store[j].0@
}

/// A lookup finds the first entry with the key.
pub proof fn lemma_lookup_index(store: Seq<(String, JsonValue)>, key: Seq<char>, i: int)
    requires
        0 <= i < store.len(),
        store[i].0@ == key,
        forall|j: int| 0 <= j < i ==> store[j].0@ != key,
    ensures
        lookup(store, key) == Some(store[i].1),
    decreases i,
{
    if i > 0 {
        lemma_lookup_index(store.drop_first(), key, i - 1);
    }
}

/// A lookup fails when no entry has the key.
pub proof fn lemma_lookup_none(store: Seq<(String, JsonValue)>, key: Seq<char>)
    requires
        forall|j: int| 0 <= j < store.len() ==> store[j].0@ != key,
    ensures
        lookup(store, key) is None,
    decreases store.len(),
{
    if store.len() > 0 {
        lemma_lookup_none(store.drop_first(), key);
    }
}

/// Two stores with the same keys, position by position, and the same values
/// under the key `k`, give the same lookup of `k`.
pub proof fn lemma_lookup_agree(a: Seq<(String, JsonValue)>, b: Seq<(String, JsonValue)>, k: Seq<char>)
    requires
        a.len() == b.len(),
        forall|j: int| 0 <= j < a.len() ==> a[j].0@ == b[j].0@,
        forall|j: int| 0 <= j < a.len() && a[j].0@ == k ==> a[j].1 == b[j].1,
    ensures
        lookup(a, k) == lookup(b, k),
    decreases a.len(),
{
    if a.len() > 0 {
        lemma_lookup_agree(a.drop_first(), b.drop_first(), k);
    }
}

/// Appending an entry with another key leaves a lookup unchanged.
pub proof fn lemma_lookup_push(store: Seq<(String, JsonValue)>, e: (String, JsonValue), k: Seq<char>)
    requires
        e.0@ != k,
    ensures
        lookup(store.push(e), k) == lookup(store, k),
    decreases store.len(),
{
    if store.len() > 0 {
        assert(store.push(e).drop_first() =~= store.drop_first().push(e));
        lemma_lookup_push(store.drop_first(), e, k);
    } else {
        assert(store.push(e).drop_first() =~= store);
    }
}

/// Position of the first entry with `key`, or the length of the store when
/// there is none (where a new entry for `key` goes).
pub open spec fn key_position(store: Seq<(String, JsonValue)>, key: Seq<char>) -> int
    decreases store.len(),
{
    if store.len() == 0 {
        0
    } else if store[0].0@ == key {
        0
    } else {
        1 + key_position(store.drop_first(), key)
    }
}

/// `new` is `old` with the entry at `key_position(old, key)` set to
/// (`key`, `value`): replaced in place, or appended.
pub open spec fn store_set(old: Seq<(String, JsonValue)>, key: Seq<char>, value: JsonValue, new: Seq<(String, JsonValue)>) -> bool {
    let p = key_position(old, key);
    &&& new.len() == if p < old.len() { old.len() } else { old.len() + 1 }
    &&& new[p].0@ == key
    &&& new[p].1 == value
    &&& forall|j: int| 0 <= j < old.len() && j != p ==> new[j] == old[j]
}

/// The first entry with the key is where `key_position` points.
pub proof fn lemma_key_position(store: Seq<(String, JsonValue)>, key: Seq<char>, i: int)
    requires
        0 <= i <= store.len(),
        i < store.len() ==> store[i].0@ == key,
        forall|j: int| 0 <= j < i ==> store[j].0@ != key,
    ensures
        key_position(store, key) == i,
    decreases i,
{
    if i > 0 {
        lemma_key_position(store.drop_first(), key, i - 1);
    }
}

/// `key_position` points at the first entry with the key, or past the end
/// when no entry has it.
pub proof fn lemma_key_position_facts(store: Seq<(String, JsonValue)>, key: Seq<char>)
    ensures
        0 <= key_position(store, key) <= store.len(),
        key_position(store, key) < store.len() ==> store[key_position(store, key)].0@ == key,
        forall|j: int| 0 <= j < key_position(store, key) ==> store[j].0@ != key,
    decreases store.len(),
{
    if store.len() > 0 && store[0].0@ != key {
        let rest = store.drop_first();
        lemma_key_position_facts(rest, key);
        assert forall|j: int| 0 <= j < key_position(store, key) implies store[j].0@ != key by {
            if j > 0 {
                assert(store[j] == rest[j - 1]);
            }
        }
    }
}

/// Reading after a write: once `key` is set to `value` (as `set_value` does),
/// a read of `key` gives `value`, a read of any other key gives what it gave
/// before, and a store without repeated keys keeps none.
pub proof fn law_context_read_after_write(
    before: Seq<(String, JsonValue)>,
    after: Seq<(String, JsonValue)>,
    key: Seq<char>,
    value: JsonValue,
)
    requires
        store_set(before, key, value, after),
    ensures
        lookup(after, key) == Some(value),
        forall|k: Seq<char>| k != key ==> #[trigger] lookup(after, k) == lookup(before, k),
        keys_distinct(before) ==> keys_distinct(after),
{
    let p = key_position(before, key);
    lemma_key_position_facts(before, key);
    lemma_lookup_index(after, key, p);
    if p < before.len() {
        assert forall|k: Seq<char>| k != key implies #[trigger] lookup(after, k) == lookup(before, k) by {
            lemma_lookup_agree(before, after, k);
        }
        if keys_distinct(before) {
            assert forall|i: int, j: int|
                0 <= i < after.len() && 0 <= j < after.len() && i != j implies after[i].0@ != after[j].0@ by {
                if i != p {
                    assert(after[i] == before[i]);
                }
                if j != p {
                    assert(after[j] == before[j]);
                }
            }
        }
    } else {
        assert(after =~= before.push(after[p]));
        assert forall|k: Seq<char>| k != key implies #[trigger] lookup(after, k) == lookup(before, k) by {
            lemma_lookup_push(before, after[p], k);
        }
        if keys_distinct(before) {
            assert forall|i: int, j: int|
                0 <= i < after.len() && 0 <= j < after.len() && i != j implies after[i].0@ != after[j].0@ by {
                if i != p {
                    assert(after[i] == before[i]);
                }
                if j != p {
                    assert(after[j] == before[j]);
                }
            }
        }
    }
}

/// Index of the first entry with the given key, if any.
pub fn find_key(store: &Vec<(String, JsonValue)>, key: &str) -> (r: Option<usize>)
    ensures
        match r {
            Some(i) => i < store@.len() && store@[i as int].0@ == key@
                && forall|j: int| 0 <= j < i ==> store@[j].0@ != key@,
            None => forall|j: int| 0 <= j < store@.len() ==> store@[j].0@ != key@,
        },
{
    let mut i: usize = 0;
    while i < store.len()
        invariant
            i <= store@.len(),
            forall|j: int| 0 <= j < i ==> store@[j].0@ != key@,
        decreases store@.len() - i,
    {
        if str_eq(store[i].0.as_str(), key) {
            return Some(i);
        }
        i = i + 1;
    }
    None
}

/// The identifier is a version 4 (random) UUID: its version field (bits 76
/// to 79) is 4 and its variant field (bits 62 and 63) is `10`.
pub open spec fn is_v4(u: u128) -> bool {
    (u >> 76u128) & 0xfu128 == 4 && (u >> 62u128) & 0x3u128 == 2
}

/// A fresh random identifier from `uuid::Uuid::new_v4()`: its other bits are
/// random; `new_v4` sets the version and variant fields (see `is_v4`).
#[verifier::external_body]
pub(crate) fn fresh_uuid() -> (u: u128)
    ensures
        is_v4(u),
{
    uuid::Uuid::new_v4().as_u128()
}

/// The state of one workflow execution: its identity and the values that
/// agents and inputs have stored, keyed by name.
#[derive(Debug)]
pub struct ExecutionContext {
    pub workflow_id: String,
    pub execution_id: u128,
    pub context_store: Vec<(String, JsonValue)>,
}

impl ExecutionContext {
    /// A context with a fresh execution id and no stored values.
    pub fn new(workflow_id: String) -> (c: Self)
        ensures
            c.workflow_id == workflow_id,
            c.context_store@.len() == 0,
            is_v4(c.execution_id),
    {
        ExecutionContext {
            workflow_id,
            execution_id: fresh_uuid(),
            context_store: Vec::new(),
        }
    }

    /// Stores `value` under `key`, replacing the value stored there before.
    pub fn set_value(&mut self, key: &str, value: JsonValue)
        ensures
            final(self).workflow_id == old(self).workflow_id,
            final(self).execution_id == old(self).execution_id,
            lookup(final(self).context_store@, key@) == Some(value),
            forall|k: Seq<char>| k != key@ ==> lookup(final(self).context_store@, k)
                == lookup(old(self).context_store@, k),
            keys_distinct(old(self).context_store@) ==> keys_distinct(final(self).context_store@),
            store_keys(final(self).context_store@).to_set() == store_keys(old(self).context_store@).to_set().insert(key@),
            store_set(old(self).context_store@, key@, value, final(self).context_store@),
    {
        let ghost old_store = self.context_store@;
        match find_key(&self.context_store, key) {
            Some(i) => {
                let k = owned(key);
                self.context_store.set(i, (k, value));
                proof {
                    let s = self.context_store@;
                    lemma_key_position(old_store, key@, i as int);
                    lemma_lookup_index(s, key@, i as int);
                    assert forall|k: Seq<char>| k != key@ implies lookup(s, k) == lookup(old_store, k) by {
                        lemma_lookup_agree(old_store, s, k);
                    }
                    assert(store_keys(s) =~= store_keys(old_store));
                    assert(store_keys(old_store).contains(key@)) by {
                        assert(store_keys(old_store)[i as int] == key@);
                    }
                    assert(store_keys(s).to_set() =~= store_keys(old_store).to_set().insert(key@));
                }
            },
            None => {
                let k = owned(key);
                self.context_store.push((k, value));
                proof {
                    let s = self.context_store@;
                    lemma_key_position(old_store, key@, old_store.len() as int);
                    assert forall|j: int| 0 <= j < old_store.len() implies s[j].0@ != key@ by {
                        assert(s[j] == old_store[j]);
                    }
                    lemma_lookup_index(s, key@, old_store.len() as int);
                    assert(s =~= old_store.push(s.last()));
                    assert forall|k: Seq<char>| k != key@ implies lookup(s, k) == lookup(old_store, k) by {
                        lemma_lookup_push(old_store, s.last(), k);
                    }
                    assert(store_keys(s) =~= store_keys(old_store).push(key@));
                    Seq::lemma_to_set_insert_commutes(store_keys(old_store), key@);
                    assert(store_keys(old_store) + seq![key@] =~= store_keys(old_store).push(key@));
                    assert(store_keys(s).to_set() =~= store_keys(old_store).to_set().insert(key@));
                }
            },
        }
    }

    /// The value stored under `key`, if any.
    pub fn get_value(&self, key: &str) -> (r: Option<&JsonValue>)
        ensures
            match r {
                Some(v) => lookup(self.context_store@, key@) == Some(*v),
                None => lookup(self.context_store@, key@) is None,
            },
    {
        match find_key(&self.context_store, key) {
            Some(i) => {
                proof {
                    lemma_lookup_index(self.context_store@, key@, i as int);
                }
                Some(&self.context_store[i].1)
            },
            None => {
                proof {
                    lemma_lookup_none(self.context_store@, key@);
                }
                None
            },
        }
    }
}

} // verus!
