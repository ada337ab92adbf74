//! What the HTTP interface reports about executions, read from their stored
//! records, and how it pauses, resumes and cancels them.

use vstd::prelude::*;
use crate::api::error::ApiError;
use crate::engine::types::{find_key, lookup};
use crate::json::{JsonValue, member, text_member, text_member_exec};
use crate::storage::state::{StoredExecution, StoredExecutionStatus, cancel, pause, resume};
use crate::text::owned;

verus! {

/// Status of an execution, as the interface reports it.
#[derive(Debug, Clone, Copy, PartialEq, Eq, Structural)]
pub enum ExecutionStatus {
    Running,
    Completed,
    Failed,
    Paused,
    Cancelled,
}

/// A moment: whole seconds since the Unix epoch and the nanoseconds past them.
#[derive(Debug, Clone, Copy, PartialEq, Eq, Structural)]
pub struct Timestamp {
    pub secs: i64,
    pub nanos: u32,
}

/// The details of an execution.
#[derive(Debug)]
pub struct ExecutionDetails {
    pub id: u128,
    pub workflow_id: String,
    pub status: ExecutionStatus,
    pub started_at: Timestamp,
    pub completed_at: Option<Timestamp>,
    pub outputs: Vec<(String, JsonValue)>,
    pub error: Option<String>,
}

/// The moment that an RFC 3339 text denotes, as
/// `chrono::DateTime::parse_from_rfc3339` reads it, as (seconds, nanoseconds)
/// since the epoch; `None` when it does not parse.
pub uninterp spec fn rfc3339_instant(s: Seq<char>) -> Option<(i64, u32)>;

/// Whether `chrono::DateTime::from_timestamp` accepts this number of
/// seconds: the moment must fall between the first day of year -262143
/// and the last second of year 262142, chrono's range of dates.
pub open spec fn timestamp_in_range(secs: i64) -> bool {
    -8334601228800 <= secs && secs <= 8210266876799
}

/// The value that `uuid::Uuid::parse_str` reads from a text, as a number.
pub uninterp spec fn uuid_parsed(s: Seq<char>) -> Option<u128>;

/// `chrono::DateTime::parse_from_rfc3339`, keeping the moment as seconds and
/// nanoseconds (`timestamp`, `timestamp_subsec_nanos`): named by
/// `rfc3339_instant`.
#[verifier::external_body]
fn parse_rfc3339(s: &str) -> (r: Option<Timestamp>)
    ensures
        match r {
            Some(t) => rfc3339_instant(s@) == Some((t.secs, t.nanos)),
            None => rfc3339_instant(s@) is None,
        },
{
    match chrono::DateTime::parse_from_rfc3339(s) {
        Ok(dt) => Some(Timestamp { secs: dt.timestamp(), nanos: dt.timestamp_subsec_nanos() }),
        Err(_) => None,
    }
}

/// `chrono::DateTime::from_timestamp(secs, 0)`: `None` out of range
/// (`timestamp_in_range`); else, as its documentation says, the moment
/// whose `timestamp` is `secs`, with no nanoseconds.
#[verifier::external_body]
fn from_unix_secs(secs: i64) -> (r: Option<Timestamp>)
    ensures
        match r {
            Some(t) => timestamp_in_range(secs) && t == (Timestamp { secs, nanos: 0 }),
            None => !timestamp_in_range(secs),
        },
{
    match chrono::DateTime::from_timestamp(secs, 0) {
        Some(dt) => Some(Timestamp { secs: dt.timestamp(), nanos: dt.timestamp_subsec_nanos() }),
        None => None,
    }
}

/// `uuid::Uuid::parse_str`, as a number (`as_u128`): named by `uuid_parsed`.
#[verifier::external_body]
fn parse_uuid(s: &str) -> (r: Option<u128>)
    ensures
        r == uuid_parsed(s@),
{
    match uuid::Uuid::parse_str(s) {
        Ok(u) => Some(u.as_u128()),
        Err(_) => None,
    }
}

/// The status reported for a stored status.
pub open spec fn reported_status(s: StoredExecutionStatus) -> ExecutionStatus {
    match s {
        StoredExecutionStatus::Running => ExecutionStatus::Running,
        StoredExecutionStatus::Completed => ExecutionStatus::Completed,
        StoredExecutionStatus::Failed => ExecutionStatus::Failed,
        StoredExecutionStatus::Paused => ExecutionStatus::Paused,
        StoredExecutionStatus::Cancelled => ExecutionStatus::Cancelled,
    }
}

/// The reported status names the stored one: different stored statuses are
/// reported differently, and an execution is reported running, completed,
/// failed, paused or cancelled exactly when it is stored so (a finished
/// execution is never reported as still running).
pub proof fn law_reported_status_names_stored(s: StoredExecutionStatus, t: StoredExecutionStatus)
    ensures
        reported_status(s) == reported_status(t) ==> s == t,
        (reported_status(s) == ExecutionStatus::Running) <==> (s == StoredExecutionStatus::Running),
        (reported_status(s) == ExecutionStatus::Completed) <==> (s == StoredExecutionStatus::Completed),
        (reported_status(s) == ExecutionStatus::Failed) <==> (s == StoredExecutionStatus::Failed),
        (reported_status(s) == ExecutionStatus::Paused) <==> (s == StoredExecutionStatus::Paused),
        (reported_status(s) == ExecutionStatus::Cancelled) <==> (s == StoredExecutionStatus::Cancelled),
{
}

/// The status reported for a stored status.
pub fn status_of(s: StoredExecutionStatus) -> (r: ExecutionStatus)
    ensures
        r == reported_status(s),
{
    match s {
        StoredExecutionStatus::Running => ExecutionStatus::Running,
        StoredExecutionStatus::Completed => ExecutionStatus::Completed,
        StoredExecutionStatus::Failed => ExecutionStatus::Failed,
        StoredExecutionStatus::Paused => ExecutionStatus::Paused,
        StoredExecutionStatus::Cancelled => ExecutionStatus::Cancelled,
    }
}

/// The moment written in the member `key`, when it is an RFC 3339 text.
pub open spec fn time_member(data: JsonValue, key: Seq<char>) -> Option<Timestamp> {
    match text_member(data, key) {
        Some(t) => match rfc3339_instant(t) {
            Some(p) => Some(Timestamp { secs: p.0, nanos: p.1 }),
            None => None,
        },
        None => None,
    }
}

/// The details reported for a stored execution whose serialized details
/// read as `data` (`None` when they do not read as JSON, which counts as an
/// empty object): the workflow (`unknown` if absent), the start time (else
/// the creation time, else `now`), the completion time, the outputs (the
/// members of the `result` object), the error, and the status.
pub open spec fn details_of(
    d: ExecutionDetails,
    id: u128,
    stored: StoredExecution,
    data: Option<JsonValue>,
    now: Timestamp,
) -> bool {
    let v = match data {
        Some(v) => v,
        None => JsonValue::Null,
    };
    &&& d.id == id
    &&& d.workflow_id@ == match text_member(v, "workflow_id"@) {
        Some(w) => w,
        None => "unknown"@,
    }
    &&& d.status == reported_status(stored.status)
    &&& d.started_at == match time_member(v, "started_at"@) {
        Some(t) => t,
        None => if timestamp_in_range(stored.created_at as i64) {
            Timestamp { secs: stored.created_at as i64, nanos: 0 }
        } else {
            now
        },
    }
    &&& d.completed_at == time_member(v, "completed_at"@)
    &&& match member(v, "result"@) {
        Some(JsonValue::Object(entries)) => d.outputs@ == entries@,
        _ => d.outputs@.len() == 0,
    }
    &&& match text_member(v, "error"@) {
        Some(e) => d.error matches Some(x) && x@ == e,
        None => d.error is None,
    }
}

/// The moment written in the member `key` of `data`.
fn time_field(data: &JsonValue, key: &str) -> (r: Option<Timestamp>)
    ensures
        r == time_member(*data, key@),
{
    match text_member_exec(data, key) {
        Some(t) => match parse_rfc3339(t.as_str()) {
            Some(ts) => Some(ts),
            None => None,
        },
        None => None,
    }
}

/// The members of the `result` object of `data`, or none.
fn result_members(data: JsonValue) -> (r: Vec<(String, JsonValue)>)
    ensures
        match member(data, "result"@) {
            Some(JsonValue::Object(entries)) => r@ == entries@,
            _ => r@.len() == 0,
        },
{
    match data {
        JsonValue::Object(mut entries) => {
            let ghost all = entries@;
            match find_key(&entries, "result") {
                Some(i) => {
                    proof {
                        crate::engine::types::lemma_lookup_index(all, "result"@, i as int);
                    }
                    let (_, value) = entries.remove(i);
                    match value {
                        JsonValue::Object(members) => members,
                        _ => Vec::new(),
                    }
                },
                None => {
                    proof {
                        crate::engine::types::lemma_lookup_none(all, "result"@);
                    }
                    Vec::new()
                },
            }
        },
        _ => Vec::new(),
    }
}

/// The details reported for a stored execution (see `details_of`).
pub fn execution_details(id: u128, stored: &StoredExecution, data: Option<JsonValue>, now: Timestamp) -> (d: ExecutionDetails)
    ensures
        details_of(d, id, *stored, data, now),
{
    let v = match data {
        Some(v) => v,
        None => JsonValue::Null,
    };
    let workflow_id = match text_member_exec(&v, "workflow_id") {
        Some(w) => w,
        None => owned("unknown"),
    };
    let started_at = match time_field(&v, "started_at") {
        Some(t) => t,
        None => match from_unix_secs(stored.created_at as i64) {
            Some(t) => t,
            None => now,
        },
    };
    let completed_at = time_field(&v, "completed_at");
    let error = text_member_exec(&v, "error");
    let outputs = result_members(v);
    ExecutionDetails {
        id,
        workflow_id,
        status: status_of(stored.status),
        started_at,
        completed_at,
        outputs,
        error,
    }
}

/// The identifier reported for a stored execution: its id read as a UUID,
/// or zero (the nil UUID) when it does not read as one.
pub open spec fn reported_id(stored_id: Seq<char>) -> u128 {
    match uuid_parsed(stored_id) {
        Some(u) => u,
        None => 0,
    }
}

/// The details of every stored execution, in order; each comes with its
/// serialized details read as JSON (`None` where they do not read).
pub fn list_execution_details(rows: Vec<(StoredExecution, Option<JsonValue>)>, now: Timestamp) -> (r: Vec<ExecutionDetails>)
    ensures
        r@.len() == rows@.len(),
        forall|k: int| 0 <= k < rows@.len() ==>
            details_of(#[trigger] r@[k], reported_id(rows@[k].0.id@), rows@[k].0, rows@[k].1, now),
{
    let ghost all = rows@;
    let mut rest = rows;
    let mut out: Vec<ExecutionDetails> = Vec::new();
    let n = rest.len();
    let mut i: usize = 0;
    assert(rest@ =~= all.subrange(0, n as int));
    while i < n
        invariant
            n == all.len(),
            i <= n,
            rest@ == all.subrange(i as int, n as int),
            out@.len() == i,
            forall|k: int| 0 <= k < i ==>
                details_of(#[trigger] out@[k], reported_id(all[k].0.id@), all[k].0, all[k].1, now),
        decreases n - i,
    {
        let (stored, data) = rest.remove(0);
        assert((stored, data) == all[i as int]);
        let id = match parse_uuid(stored.id.as_str()) {
            Some(u) => u,
            None => 0,
        };
        let d = execution_details(id, &stored, data, now);
        out.push(d);
        i = i + 1;
        assert(rest@ =~= all.subrange(i as int, n as int));
    }
    out
}

/// Pauses a stored execution as of `now`; a bad request unless it is running.
pub fn pause_execution(stored: &mut StoredExecution, now: u64) -> (r: Result<(), ApiError>)
    ensures
        old(stored).status == StoredExecutionStatus::Running ==> r is Ok
            && final(stored).status == StoredExecutionStatus::Paused && final(stored).updated_at == now,
        old(stored).status != StoredExecutionStatus::Running ==> (r matches Err(e)
            && e.code@ == "BAD_REQUEST"@ && e.message@ == "Execution is not running"@)
            && *final(stored) == *old(stored),
        final(stored).id == old(stored).id,
        final(stored).created_at == old(stored).created_at,
        final(stored).data == old(stored).data,
{
    match pause(stored, now) {
        Ok(()) => Ok(()),
        Err(m) => Err(ApiError::bad_request(m.as_str())),
    }
}

/// Resumes a stored execution as of `now`; a bad request unless it is paused.
pub fn resume_execution(stored: &mut StoredExecution, now: u64) -> (r: Result<(), ApiError>)
    ensures
        old(stored).status == StoredExecutionStatus::Paused ==> r is Ok
            && final(stored).status == StoredExecutionStatus::Running && final(stored).updated_at == now,
        old(stored).status != StoredExecutionStatus::Paused ==> (r matches Err(e)
            && e.code@ == "BAD_REQUEST"@ && e.message@ == "Execution is not paused"@)
            && *final(stored) == *old(stored),
        final(stored).id == old(stored).id,
        final(stored).created_at == old(stored).created_at,
        final(stored).data == old(stored).data,
{
    match resume(stored, now) {
        Ok(()) => Ok(()),
        Err(m) => Err(ApiError::bad_request(m.as_str())),
    }
}

/// Cancels a stored execution as of `now`.
pub fn cancel_execution(stored: &mut StoredExecution, now: u64)
    ensures
        final(stored).status == StoredExecutionStatus::Cancelled,
        final(stored).updated_at == now,
        final(stored).id == old(stored).id,
        final(stored).created_at == old(stored).created_at,
        final(stored).data == old(stored).data,
{
    cancel(stored, now)
}

} // verus!
