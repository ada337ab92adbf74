//! The audit log: a record of the security-relevant actions of agents, and
//! queries over it.

use vstd::prelude::*;
use crate::api::executions::Timestamp;
use crate::json::JsonValue;
use crate::text::str_eq;
use crate::engine::types::{fresh_uuid, is_v4};
use crate::time::current_time;

verus! {

/// An action worth auditing.
#[derive(Debug)]
pub enum AuditAction {
    ToolExecuted { tool: String, operation: String, parameters: JsonValue },
    FileAccessed { path: String, operation: String },
    NetworkRequest { url: String, method: String },
    PermissionGranted { tool: String, scope: String },
    PermissionDenied { tool: String, scope: String, reason: String },
}

/// How an audited action ended.
#[derive(Debug)]
pub enum AuditResult {
    Success,
    Failed { error: String },
    Denied { reason: String },
}

/// One entry of the audit log.
#[derive(Debug)]
pub struct AuditLog {
    pub id: u128,
    pub timestamp: Timestamp,
    pub execution_id: u128,
    pub agent_id: String,
    pub action: AuditAction,
    pub result: AuditResult,
}

/// `a` is no later than `b`.
pub open spec fn no_later(a: Timestamp, b: Timestamp) -> bool {
    a.secs < b.secs || (a.secs == b.secs && a.nanos <= b.nanos)
}

/// `a` is no later than `b`.
pub fn is_no_later(a: Timestamp, b: Timestamp) -> (r: bool)
    ensures
        r == no_later(a, b),
{
    a.secs < b.secs || (a.secs == b.secs && a.nanos <= b.nanos)
}

/// The logs that a query selects, by reference, in the order they were
/// logged.
pub open spec fn derefs(v: Seq<&AuditLog>) -> Seq<AuditLog> {
    v.map_values(|x: &AuditLog| *x)
}

/// Keeps audit entries in the order they were logged.
pub struct AuditLogger {
    logs: Vec<AuditLog>,
}

impl AuditLogger {
    /// The entries logged so far, oldest first.
    pub closed spec fn entries(&self) -> Seq<AuditLog> {
        self.logs@
    }

    /// An empty log.
    pub fn new() -> (l: Self)
        ensures
            l.entries().len() == 0,
    {
        AuditLogger { logs: Vec::new() }
    }

    /// Appends an entry.
    pub fn log(&mut self, log: AuditLog)
        ensures
            final(self).entries() == old(self).entries().push(log),
    {
        self.logs.push(log);
    }

    /// Appends an entry for an action, with a fresh id, the current time,
    /// and the given result.
    fn log_action(&mut self, execution_id: u128, agent_id: String, action: AuditAction, result: AuditResult)
        ensures
            final(self).entries().len() == old(self).entries().len() + 1,
            final(self).entries().drop_last() == old(self).entries(),
            final(self).entries().last().execution_id == execution_id,
            final(self).entries().last().agent_id == agent_id,
            final(self).entries().last().action == action,
            final(self).entries().last().result == result,
            is_v4(final(self).entries().last().id),
            final(self).entries().last().timestamp.secs >= 0,
    {
        let entry = AuditLog { id: fresh_uuid(), timestamp: current_time(), execution_id, agent_id, action, result };
        self.logs.push(entry);
        assert(self.logs@.drop_last() =~= old(self).logs@);
    }

    /// Logs the execution of a tool.
    pub fn log_tool_execution(
        &mut self,
        execution_id: u128,
        agent_id: String,
        tool: String,
        operation: String,
        parameters: JsonValue,
        result: AuditResult,
    )
        ensures
            final(self).entries().drop_last() == old(self).entries(),
            final(self).entries().len() == old(self).entries().len() + 1,
            final(self).entries().last().execution_id == execution_id,
            final(self).entries().last().agent_id == agent_id,
            final(self).entries().last().action == (AuditAction::ToolExecuted { tool, operation, parameters }),
            final(self).entries().last().result == result,
    {
        self.log_action(execution_id, agent_id, AuditAction::ToolExecuted { tool, operation, parameters }, result);
    }

    /// Logs an access to a file.
    pub fn log_file_access(&mut self, execution_id: u128, agent_id: String, path: String, operation: String, result: AuditResult)
        ensures
            final(self).entries().drop_last() == old(self).entries(),
            final(self).entries().len() == old(self).entries().len() + 1,
            final(self).entries().last().execution_id == execution_id,
            final(self).entries().last().agent_id == agent_id,
            final(self).entries().last().action == (AuditAction::FileAccessed { path, operation }),
            final(self).entries().last().result == result,
    {
        self.log_action(execution_id, agent_id, AuditAction::FileAccessed { path, operation }, result);
    }

    /// Logs a network request.
    pub fn log_network_request(&mut self, execution_id: u128, agent_id: String, url: String, method: String, result: AuditResult)
        ensures
            final(self).entries().drop_last() == old(self).entries(),
            final(self).entries().len() == old(self).entries().len() + 1,
            final(self).entries().last().execution_id == execution_id,
            final(self).entries().last().agent_id == agent_id,
            final(self).entries().last().action == (AuditAction::NetworkRequest { url, method }),
            final(self).entries().last().result == result,
    {
        self.log_action(execution_id, agent_id, AuditAction::NetworkRequest { url, method }, result);
    }

    /// Logs a permission that was granted; the result is a success.
    pub fn log_permission_granted(&mut self, execution_id: u128, agent_id: String, tool: String, scope: String)
        ensures
            final(self).entries().drop_last() == old(self).entries(),
            final(self).entries().len() == old(self).entries().len() + 1,
            final(self).entries().last().execution_id == execution_id,
            final(self).entries().last().agent_id == agent_id,
            final(self).entries().last().action == (AuditAction::PermissionGranted { tool, scope }),
            final(self).entries().last().result == AuditResult::Success,
    {
        self.log_action(execution_id, agent_id, AuditAction::PermissionGranted { tool, scope }, AuditResult::Success);
    }

    /// Logs a permission that was denied; the result is a denial for the
    /// same reason.
    pub fn log_permission_denied(&mut self, execution_id: u128, agent_id: String, tool: String, scope: String, reason: String)
        ensures
            final(self).entries().drop_last() == old(self).entries(),
            final(self).entries().len() == old(self).entries().len() + 1,
            final(self).entries().last().execution_id == execution_id,
            final(self).entries().last().agent_id == agent_id,
            final(self).entries().last().action matches AuditAction::PermissionDenied { tool: t, scope: s, reason: r }
                && t == tool && s == scope && r@ == reason@,
            final(self).entries().last().result == (AuditResult::Denied { reason }),
    {
        let copy = reason.clone();
        self.log_action(execution_id, agent_id, AuditAction::PermissionDenied { tool, scope, reason: copy }, AuditResult::Denied { reason });
    }

    /// The entries of one execution.
    pub fn query_by_execution(&self, execution_id: u128) -> (r: Vec<&AuditLog>)
        ensures
            derefs(r@) == self.entries().filter(|l: AuditLog| l.execution_id == execution_id),
    {
        let ghost pred = |l: AuditLog| l.execution_id == execution_id;
        let mut out: Vec<&AuditLog> = Vec::new();
        let mut i: usize = 0;
        while i < self.logs.len()
            invariant
                i <= self.logs@.len(),
                pred == (|l: AuditLog| l.execution_id == execution_id),
                derefs(out@) == self.logs@.take(i as int).filter(pred),
            decreases self.logs@.len() - i,
        {
            let ghost before = out@;
            let ghost prefix = self.logs@.take(i + 1);
            assert(prefix.drop_last() =~= self.logs@.take(i as int));
            assert(prefix.last() == self.logs@[i as int]);
            if self.logs[i].execution_id == execution_id {
                out.push(&self.logs[i]);
                assert(derefs(out@) =~= derefs(before).push(self.logs@[i as int]));
                assert(pred(self.logs@[i as int]));
            } else {
                assert(!pred(self.logs@[i as int]));
            }
            assert(derefs(out@) =~= prefix.filter(pred)) by {
                reveal_with_fuel(Seq::filter, 1);
            }
            i = i + 1;
        }
        assert(self.logs@.take(i as int) =~= self.logs@);
        out
    }

    /// The entries of one agent.
    pub fn query_by_agent(&self, agent_id: &str) -> (r: Vec<&AuditLog>)
        ensures
            derefs(r@) == self.entries().filter(|l: AuditLog| l.agent_id@ == agent_id@),
    {
        let ghost pred = |l: AuditLog| l.agent_id@ == agent_id@;
        let mut out: Vec<&AuditLog> = Vec::new();
        let mut i: usize = 0;
        while i < self.logs.len()
            invariant
                i <= self.logs@.len(),
                pred == (|l: AuditLog| l.agent_id@ == agent_id@),
                derefs(out@) == self.logs@.take(i as int).filter(pred),
            decreases self.logs@.len() - i,
        {
            let ghost before = out@;
            let ghost prefix = self.logs@.take(i + 1);
            assert(prefix.drop_last() =~= self.logs@.take(i as int));
            assert(prefix.last() == self.logs@[i as int]);
            if str_eq(self.logs[i].agent_id.as_str(), agent_id) {
                out.push(&self.logs[i]);
                assert(derefs(out@) =~= derefs(before).push(self.logs@[i as int]));
                assert(pred(self.logs@[i as int]));
            } else {
                assert(!pred(self.logs@[i as int]));
            }
            assert(derefs(out@) =~= prefix.filter(pred)) by {
                reveal_with_fuel(Seq::filter, 1);
            }
            i = i + 1;
        }
        assert(self.logs@.take(i as int) =~= self.logs@);
        out
    }

    /// The entries logged from `start` to `end`, both included.
    pub fn query_by_time_range(&self, start: Timestamp, end: Timestamp) -> (r: Vec<&AuditLog>)
        ensures
            derefs(r@) == self.entries().filter(|l: AuditLog| no_later(start, l.timestamp) && no_later(l.timestamp, end)),
    {
        let ghost pred = |l: AuditLog| no_later(start, l.timestamp) && no_later(l.timestamp, end);
        let mut out: Vec<&AuditLog> = Vec::new();
        let mut i: usize = 0;
        while i < self.logs.len()
            invariant
                i <= self.logs@.len(),
                pred == (|l: AuditLog| no_later(start, l.timestamp) && no_later(l.timestamp, end)),
                derefs(out@) == self.logs@.take(i as int).filter(pred),
            decreases self.logs@.len() - i,
        {
            let ghost before = out@;
            let ghost prefix = self.logs@.take(i + 1);
            assert(prefix.drop_last() =~= self.logs@.take(i as int));
            assert(prefix.last() == self.logs@[i as int]);
            let t = self.logs[i].timestamp;
            if is_no_later(start, t) && is_no_later(t, end) {
                out.push(&self.logs[i]);
                assert(derefs(out@) =~= derefs(before).push(self.logs@[i as int]));
                assert(pred(self.logs@[i as int]));
            } else {
                assert(!pred(self.logs@[i as int]));
            }
            assert(derefs(out@) =~= prefix.filter(pred)) by {
                reveal_with_fuel(Seq::filter, 1);
            }
            i = i + 1;
        }
        assert(self.logs@.take(i as int) =~= self.logs@);
        out
    }

    /// All entries, oldest first.
    pub fn get_all(&self) -> (r: &Vec<AuditLog>)
        ensures
            r@ == self.entries(),
    {
        &self.logs
    }

    /// Number of entries.
    pub fn count(&self) -> (n: usize)
        ensures
            n == self.entries().len(),
    {
        self.logs.len()
    }

    /// Removes every entry.
    pub fn clear(&mut self)
        ensures
            final(self).entries().len() == 0,
    {
        self.logs = Vec::new();
    }
}

impl Default for AuditLogger {
    fn default() -> (l: Self)
        ensures
            l.entries().len() == 0,
    {
        Self::new()
    }
}

/// The instant a timestamp stands for, in nanoseconds since the epoch.
pub open spec fn instant_nanos(t: Timestamp) -> int {
    t.secs * 1_000_000_000 + t.nanos
}

/// `no_later` is the order of instants: an earlier second comes first
/// whatever the nanoseconds, and for timestamps whose nanoseconds are under
/// one second it holds exactly when the first instant is no later than the
/// second.
pub proof fn law_no_later_orders_instants(a: Timestamp, b: Timestamp)
    ensures
        a.secs < b.secs ==> no_later(a, b),
        a.secs > b.secs ==> !no_later(a, b),
        no_later(a, a),
        (a.nanos < 1_000_000_000 && b.nanos < 1_000_000_000)
            ==> (no_later(a, b) <==> instant_nanos(a) <= instant_nanos(b)),
{
    if a.nanos < 1_000_000_000 && b.nanos < 1_000_000_000 {
        let (x, y, p, q) = (a.secs as int, b.secs as int, a.nanos as int, b.nanos as int);
        assert(x < y ==> x * 1_000_000_000 + p < y * 1_000_000_000 + q) by (nonlinear_arith)
            requires 0 <= p < 1_000_000_000, 0 <= q < 1_000_000_000;
        assert(x > y ==> x * 1_000_000_000 + p > y * 1_000_000_000 + q) by (nonlinear_arith)
            requires 0 <= p < 1_000_000_000, 0 <= q < 1_000_000_000;
    }
}

/// A query by time range returns every entry that lies within the range:
/// an entry whose instant is between the start and the end (all with
/// nanoseconds under one second) is among the entries that
/// `query_by_time_range` returns, and an entry outside it is not.
pub proof fn law_time_range_keeps_entries_inside(entries: Seq<AuditLog>, start: Timestamp, end: Timestamp, i: int)
    requires
        0 <= i < entries.len(),
        start.nanos < 1_000_000_000,
        end.nanos < 1_000_000_000,
        entries[i].timestamp.nanos < 1_000_000_000,
    ensures
        (instant_nanos(start) <= instant_nanos(entries[i].timestamp) && instant_nanos(entries[i].timestamp) <= instant_nanos(end))
            <==> entries.filter(|l: AuditLog| no_later(start, l.timestamp) && no_later(l.timestamp, end)).contains(entries[i]),
{
    let pred = |l: AuditLog| no_later(start, l.timestamp) && no_later(l.timestamp, end);
    let t = entries[i].timestamp;
    law_no_later_orders_instants(start, t);
    law_no_later_orders_instants(t, end);
    if pred(entries[i]) {
        entries.lemma_filter_contains(pred, i);
    } else if entries.filter(pred).contains(entries[i]) {
        let k = choose|k: int| 0 <= k < entries.filter(pred).len() && entries.filter(pred)[k] == entries[i];
        entries.lemma_filter_pred(pred, k);
    }
}

} // verus!
