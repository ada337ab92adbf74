//! Records of executions and checkpoints as they are stored, and the
//! decisions made on them: which checkpoint is the latest, and how pausing,
//! resuming and cancelling change an execution.

use vstd::prelude::*;
use crate::numbers::{lemma_padded_order, lemma_text_before_prefix, ten_pow, text_before};
use crate::text::{chars_of, concat, decimal, owned, padded_decimal, str_eq, zero_padded};

verus! {

/// Status of a stored execution.
#[derive(Debug, Clone, Copy, PartialEq, Eq, Structural)]
pub enum StoredExecutionStatus {
    Running,
    Completed,
    Failed,
    Paused,
    Cancelled,
}

/// An execution as stored: times are Unix timestamps in seconds, `data` is
/// its serialized details.
#[derive(Debug)]
pub struct StoredExecution {
    pub id: String,
    pub status: StoredExecutionStatus,
    pub created_at: u64,
    pub updated_at: u64,
    pub data: Vec<u8>,
}

/// A saved point of an execution.
#[derive(Debug)]
pub struct Checkpoint {
    pub execution_id: String,
    pub step_id: String,
    pub timestamp: u64,
    pub state: Vec<u8>,
}

/// The key a checkpoint is stored under: the execution id, `:`, and the
/// timestamp in 20 zero-padded digits, so that keys sort by time.
pub open spec fn checkpoint_key_text(execution_id: Seq<char>, timestamp: u64) -> Seq<char> {
    execution_id + ":"@ + zero_padded(decimal(timestamp as nat), 20)
}

/// Checkpoint keys sort by time: of two checkpoints of one execution, the
/// key of the earlier comes first, as the store orders its keys.
pub proof fn law_checkpoint_keys_sort_by_time(execution_id: Seq<char>, earlier: u64, later: u64)
    requires
        earlier < later,
    ensures
        text_before(checkpoint_key_text(execution_id, earlier), checkpoint_key_text(execution_id, later)),
{
    assert(ten_pow(20) == 100000000000000000000nat) by {
        reveal_with_fuel(ten_pow, 21);
    }
    lemma_padded_order(earlier as nat, later as nat, 20);
    lemma_text_before_prefix(
        execution_id + ":"@,
        zero_padded(decimal(earlier as nat), 20),
        zero_padded(decimal(later as nat), 20),
    );
}

/// The key under which `checkpoint` is stored.
pub fn checkpoint_key(checkpoint: &Checkpoint) -> (k: String)
    ensures
        k@ == checkpoint_key_text(checkpoint.execution_id@, checkpoint.timestamp),
{
    let with_colon = concat(checkpoint.execution_id.as_str(), ":");
    concat(with_colon.as_str(), padded_decimal(checkpoint.timestamp, 20).as_str())
}

/// Whether `key` starts with `owner` followed by `:`, as the keys of
/// `owner`'s records do.
pub fn is_key_of(key: &str, owner: &str) -> (r: bool)
    ensures
        r == (owner@ + ":"@).is_prefix_of(key@),
{
    let prefix = chars_of(concat(owner, ":").as_str());
    let k = chars_of(key);
    if prefix.len() > k.len() {
        return false;
    }
    let mut i: usize = 0;
    while i < prefix.len()
        invariant
            prefix@ == owner@ + ":"@,
            k@ == key@,
            prefix@.len() <= k@.len(),
            i <= prefix@.len(),
            forall|j: int| 0 <= j < i ==> prefix@[j] == k@[j],
        decreases prefix@.len() - i,
    {
        if prefix[i] != k[i] {
            assert(k@.subrange(0, prefix@.len() as int)[i as int] == k@[i as int]);
            return false;
        }
        i = i + 1;
    }
    assert(prefix@ =~= k@.subrange(0, prefix@.len() as int));
    true
}

/// Whether a stored key belongs to the checkpoints of `execution_id`: it
/// starts with the id followed by `:`.
pub fn is_checkpoint_key_of(key: &str, execution_id: &str) -> (r: bool)
    ensures
        r == (execution_id@ + ":"@).is_prefix_of(key@),
{
    is_key_of(key, execution_id)
}

/// `w` is the first of `stamps` with the greatest value.
pub open spec fn is_first_latest(stamps: Seq<u64>, w: int) -> bool {
    &&& 0 <= w < stamps.len()
    &&& forall|j: int| 0 <= j < stamps.len() ==> #[trigger] stamps[j] <= stamps[w]
    &&& forall|j: int| 0 <= j < w ==> #[trigger] stamps[j] < stamps[w]
}

/// The timestamps of checkpoints, in order.
pub open spec fn stamps_of(cs: Seq<Checkpoint>) -> Seq<u64> {
    cs.map_values(|c: Checkpoint| c.timestamp)
}

/// One step of finding the latest checkpoint: `candidate` replaces the
/// latest so far only when it is strictly newer.
pub fn newer_checkpoint(latest: Option<Checkpoint>, candidate: Checkpoint) -> (r: Option<Checkpoint>)
    ensures
        match latest {
            None => r == Some(candidate),
            Some(cur) => if candidate.timestamp > cur.timestamp { r == Some(candidate) } else { r == Some(cur) },
        },
{
    match latest {
        None => Some(candidate),
        Some(cur) => if candidate.timestamp > cur.timestamp { Some(candidate) } else { Some(cur) },
    }
}

/// The latest of the checkpoints (the first one, among those with the
/// greatest timestamp), or `None` when there are none.
pub fn latest_checkpoint(checkpoints: Vec<Checkpoint>) -> (r: Option<Checkpoint>)
    ensures
        checkpoints@.len() == 0 ==> r is None,
        checkpoints@.len() > 0 ==> exists|w: int| is_first_latest(stamps_of(checkpoints@), w)
            && r == Some(checkpoints@[w]),
{
    let ghost cs = checkpoints@;
    let mut rest = checkpoints;
    let mut latest: Option<Checkpoint> = None;
    let ghost mut w: int = 0;
    let mut taken: usize = 0;
    let n = rest.len();
    assert(rest@ =~= cs.subrange(0, n as int));
    while taken < n
        invariant
            n == cs.len(),
            taken <= n,
            rest@ == cs.subrange(taken as int, n as int),
            taken == 0 ==> latest is None,
            taken > 0 ==> (is_first_latest(stamps_of(cs.take(taken as int)), w) && latest == Some(cs[w])),
        decreases n - taken,
    {
        let c = rest.remove(0);
        let ghost prev = latest;
        proof {
            if taken > 0 && c.timestamp > cs[w].timestamp {
                w = taken as int;
            } else if taken == 0 {
                w = 0;
            }
        }
        latest = newer_checkpoint(latest, c);
        taken = taken + 1;
        proof {
            assert(rest@ =~= cs.subrange(taken as int, n as int));
            let st = stamps_of(cs.take(taken as int));
            let sp = stamps_of(cs.take(taken - 1));
            assert forall|j: int| 0 <= j < taken - 1 implies #[trigger] st[j] == sp[j] by {}
            assert(st[taken - 1] == c.timestamp);
            assert(is_first_latest(st, w));
        }
    }
    proof {
        assert(cs.take(n as int) =~= cs);
    }
    latest
}

/// The checkpoints of the execution `execution_id` among `checkpoints`: those
/// whose execution id is exactly that one, in order.
pub open spec fn checkpoints_of(checkpoints: Seq<Checkpoint>, execution_id: Seq<char>) -> Seq<Checkpoint> {
    checkpoints.filter(|c: Checkpoint| c.execution_id@ == execution_id)
}

/// The latest checkpoint of the execution `execution_id` (the first one,
/// among its checkpoints with the greatest timestamp): checkpoints of other
/// executions are left out, however their ids begin.
pub fn latest_checkpoint_of(execution_id: &str, checkpoints: Vec<Checkpoint>) -> (r: Option<Checkpoint>)
    ensures
        checkpoints_of(checkpoints@, execution_id@).len() == 0 ==> r is None,
        checkpoints_of(checkpoints@, execution_id@).len() > 0 ==> exists|w: int|
            is_first_latest(stamps_of(checkpoints_of(checkpoints@, execution_id@)), w)
            && r == Some(checkpoints_of(checkpoints@, execution_id@)[w]),
{
    let ghost cs = checkpoints@;
    let ghost pred = |c: Checkpoint| c.execution_id@ == execution_id@;
    let mut rest = checkpoints;
    let mut own: Vec<Checkpoint> = Vec::new();
    let n = rest.len();
    let mut i: usize = 0;
    assert(rest@ =~= cs.subrange(0, n as int));
    while i < n
        invariant
            n == cs.len(),
            i <= n,
            rest@ == cs.subrange(i as int, n as int),
            pred == (|c: Checkpoint| c.execution_id@ == execution_id@),
            own@ == cs.take(i as int).filter(pred),
        decreases n - i,
    {
        let c = rest.remove(0);
        let ghost before = own@;
        let ghost prefix = cs.take(i + 1);
        assert(prefix.drop_last() =~= cs.take(i as int));
        assert(prefix.last() == c);
        if str_eq(c.execution_id.as_str(), execution_id) {
            own.push(c);
            assert(pred(prefix.last()));
        } else {
            assert(!pred(prefix.last()));
        }
        assert(own@ =~= prefix.filter(pred)) by {
            reveal_with_fuel(Seq::filter, 1);
        }
        i = i + 1;
        assert(rest@ =~= cs.subrange(i as int, n as int));
    }
    assert(cs.take(n as int) =~= cs);
    latest_checkpoint(own)
}

/// `after` is `before` moved to `status` as of `now`: the same execution,
/// with the same creation time and data.
pub open spec fn moved_to(before: StoredExecution, after: StoredExecution, status: StoredExecutionStatus, now: u64) -> bool {
    &&& after.status == status
    &&& after.updated_at == now
    &&& after.id == before.id
    &&& after.created_at == before.created_at
    &&& after.data == before.data
}

/// Pausing a running execution and then resuming it gives back the running
/// execution, changed in its update time alone.
pub proof fn law_pause_resume_round_trip(
    running: StoredExecution,
    paused: StoredExecution,
    resumed: StoredExecution,
    paused_at: u64,
    resumed_at: u64,
)
    requires
        running.status == StoredExecutionStatus::Running,
        moved_to(running, paused, StoredExecutionStatus::Paused, paused_at),
        moved_to(paused, resumed, StoredExecutionStatus::Running, resumed_at),
    ensures
        moved_to(running, resumed, running.status, resumed_at),
{
}

/// Pausing: only a running execution can be paused; it becomes paused as
/// of `now`.
pub fn pause(stored: &mut StoredExecution, now: u64) -> (r: Result<(), String>)
    ensures
        old(stored).status == StoredExecutionStatus::Running ==> r is Ok
            && moved_to(*old(stored), *final(stored), StoredExecutionStatus::Paused, now),
        old(stored).status != StoredExecutionStatus::Running ==> (r matches Err(m)
            && m@ == "Execution is not running"@) && *final(stored) == *old(stored),
        final(stored).id == old(stored).id,
        final(stored).created_at == old(stored).created_at,
        final(stored).data == old(stored).data,
{
    if stored.status != StoredExecutionStatus::Running {
        return Err(owned("Execution is not running"));
    }
    stored.status = StoredExecutionStatus::Paused;
    stored.updated_at = now;
    Ok(())
}

/// Resuming: only a paused execution can be resumed; it runs again as of
/// `now`.
pub fn resume(stored: &mut StoredExecution, now: u64) -> (r: Result<(), String>)
    ensures
        old(stored).status == StoredExecutionStatus::Paused ==> r is Ok
            && moved_to(*old(stored), *final(stored), StoredExecutionStatus::Running, now),
        old(stored).status != StoredExecutionStatus::Paused ==> (r matches Err(m)
            && m@ == "Execution is not paused"@) && *final(stored) == *old(stored),
        final(stored).id == old(stored).id,
        final(stored).created_at == old(stored).created_at,
        final(stored).data == old(stored).data,
{
    if stored.status != StoredExecutionStatus::Paused {
        return Err(owned("Execution is not paused"));
    }
    stored.status = StoredExecutionStatus::Running;
    stored.updated_at = now;
    Ok(())
}

/// Cancelling: whatever its status, the execution is cancelled as of `now`.
pub fn cancel(stored: &mut StoredExecution, now: u64)
    ensures
        moved_to(*old(stored), *final(stored), StoredExecutionStatus::Cancelled, now),
{
    stored.status = StoredExecutionStatus::Cancelled;
    stored.updated_at = now;
}

} // verus!
