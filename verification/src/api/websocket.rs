//! Commands that clients send over an execution's live connection, and how
//! they change the stored execution.

use vstd::prelude::*;
use crate::json::{JsonValue, text_member, text_member_exec};
use crate::storage::state::{StoredExecution, StoredExecutionStatus, cancel, pause, resume};
use crate::text::str_eq;

verus! {

/// A command from a client.
#[derive(Debug, Clone, Copy, PartialEq, Eq, Structural)]
pub enum ClientCommand {
    Pause,
    Resume,
    Cancel,
}

/// The command that a message denotes: an object whose `type` member is
/// `pause`, `resume` or `cancel`.
pub open spec fn command_in(v: JsonValue) -> Option<ClientCommand> {
    match text_member(v, "type"@) {
        Some(t) => if t == "pause"@ {
            Some(ClientCommand::Pause)
        } else if t == "resume"@ {
            Some(ClientCommand::Resume)
        } else if t == "cancel"@ {
            Some(ClientCommand::Cancel)
        } else {
            None
        },
        None => None,
    }
}

impl ClientCommand {
    /// The command that a message denotes, if any (see `command_in`).
    pub fn from_json(v: &JsonValue) -> (r: Option<ClientCommand>)
        ensures
            r == command_in(*v),
    {
        match text_member_exec(v, "type") {
            Some(t) => {
                if str_eq(t.as_str(), "pause") {
                    Some(ClientCommand::Pause)
                } else if str_eq(t.as_str(), "resume") {
                    Some(ClientCommand::Resume)
                } else if str_eq(t.as_str(), "cancel") {
                    Some(ClientCommand::Cancel)
                } else {
                    None
                }
            },
            None => None,
        }
    }
}

/// The status that a command leaves: pausing moves a running execution to
/// paused, resuming a paused one to running, cancelling any to cancelled;
/// otherwise the status stays.
pub open spec fn command_status(s: StoredExecutionStatus, c: ClientCommand) -> StoredExecutionStatus {
    match c {
        ClientCommand::Pause => if s == StoredExecutionStatus::Running { StoredExecutionStatus::Paused } else { s },
        ClientCommand::Resume => if s == StoredExecutionStatus::Paused { StoredExecutionStatus::Running } else { s },
        ClientCommand::Cancel => StoredExecutionStatus::Cancelled,
    }
}

/// A message that arrives on an execution's live connection.
#[derive(Debug)]
pub enum SocketMessage {
    /// A text frame, with the JSON value it holds when it parses as JSON.
    Text(Option<JsonValue>),
    /// The client closes the connection.
    Close,
    /// Any other frame.
    Other,
}

/// What the connection does with a message.
#[derive(Debug, Clone, Copy, PartialEq, Eq, Structural)]
pub enum SocketAction {
    /// Apply the command to the execution.
    Apply(ClientCommand),
    /// Nothing: the message is no command.
    Ignore,
    /// Stop reading messages.
    Stop,
}

/// The action for a message: a text holding a command applies it, a close
/// stops, anything else is ignored.
pub open spec fn action_for(m: SocketMessage) -> SocketAction {
    match m {
        SocketMessage::Text(Some(v)) => match command_in(v) {
            Some(c) => SocketAction::Apply(c),
            None => SocketAction::Ignore,
        },
        SocketMessage::Close => SocketAction::Stop,
        _ => SocketAction::Ignore,
    }
}

/// The action for a message (see `action_for`).
pub fn next_action(m: &SocketMessage) -> (a: SocketAction)
    ensures
        a == action_for(*m),
{
    match m {
        SocketMessage::Text(Some(v)) => match ClientCommand::from_json(v) {
            Some(c) => SocketAction::Apply(c),
            None => SocketAction::Ignore,
        },
        SocketMessage::Close => SocketAction::Stop,
        _ => SocketAction::Ignore,
    }
}

/// The commands that a run of messages applies, in order: those of the
/// text messages before the first close.
pub open spec fn commands_applied(ms: Seq<SocketMessage>) -> Seq<ClientCommand>
    decreases ms.len(),
{
    if ms.len() == 0 {
        Seq::empty()
    } else {
        match action_for(ms[0]) {
            SocketAction::Apply(c) => seq![c] + commands_applied(ms.drop_first()),
            SocketAction::Ignore => commands_applied(ms.drop_first()),
            SocketAction::Stop => Seq::empty(),
        }
    }
}

/// The status that a run of commands leaves, each applied in turn.
pub open spec fn status_after(s: StoredExecutionStatus, cs: Seq<ClientCommand>) -> StoredExecutionStatus
    decreases cs.len(),
{
    if cs.len() == 0 {
        s
    } else {
        status_after(command_status(s, cs[0]), cs.drop_first())
    }
}

/// `after` is the stored execution `before` once message `m` is handled:
/// a command it holds is applied as `apply_command` applies it (the id,
/// creation time and data are kept), and anything else leaves the
/// execution as it was.
pub open spec fn handled(before: StoredExecution, m: SocketMessage, after: StoredExecution) -> bool {
    &&& after.id == before.id
    &&& after.created_at == before.created_at
    &&& after.data == before.data
    &&& after.status == match action_for(m) {
        SocketAction::Apply(c) => command_status(before.status, c),
        _ => before.status,
    }
    &&& !(action_for(m) is Apply) ==> after == before
}

/// What a session does to its execution: when the messages `ms` are handled
/// in order (the reading stopping at the first close, which may only be
/// the last of them), `states[k]` being the stored execution before message
/// `k`, the execution ends with the status that the commands of the
/// messages leave, applied in turn; its id, creation time and data never
/// change.
pub proof fn law_session_applies_commands(ms: Seq<SocketMessage>, states: Seq<StoredExecution>)
    requires
        states.len() == ms.len() + 1,
        forall|k: int| 0 <= k < ms.len() ==> #[trigger] handled(states[k], ms[k], states[k + 1]),
        forall|k: int| 0 <= k < ms.len() - 1 ==> !(#[trigger] action_for(ms[k]) is Stop),
    ensures
        states.last().status == status_after(states[0].status, commands_applied(ms)),
        states.last().id == states[0].id,
        states.last().created_at == states[0].created_at,
        states.last().data == states[0].data,
    decreases ms.len(),
{
    if ms.len() > 0 {
        let rest = ms.drop_first();
        let later = states.drop_first();
        let z: int = 0;
        assert(handled(states[z], ms[z], states[z + 1]));
        assert forall|k: int| 0 <= k < rest.len() implies #[trigger] handled(later[k], rest[k], later[k + 1]) by {
            let j = k + 1;
            assert(handled(states[j], ms[j], states[j + 1]));
        }
        assert forall|k: int| 0 <= k < rest.len() - 1 implies !(#[trigger] action_for(rest[k]) is Stop) by {
            let j = k + 1;
            assert(!(action_for(ms[j]) is Stop));
        }
        law_session_applies_commands(rest, later);
        assert(later.last() == states.last());
        match action_for(ms[0]) {
            SocketAction::Apply(c) => {
                assert((seq![c] + commands_applied(rest)).drop_first() =~= commands_applied(rest));
            },
            SocketAction::Ignore => {},
            SocketAction::Stop => {
                assert(ms.len() == 1);
                assert(rest.len() == 0);
                assert(commands_applied(rest) =~= Seq::<ClientCommand>::empty());
            },
        }
    }
}

/// Nothing that arrives after the client closes the connection is applied:
/// the commands of `before`, a close, then `after` are those of `before`
/// with a close at its end alone.
pub proof fn law_nothing_after_close(before: Seq<SocketMessage>, after: Seq<SocketMessage>)
    ensures
        commands_applied(before + seq![SocketMessage::Close] + after)
            == commands_applied(before + seq![SocketMessage::Close]),
    decreases before.len(),
{
    let a = before + seq![SocketMessage::Close] + after;
    let b = before + seq![SocketMessage::Close];
    if before.len() == 0 {
        assert(a[0] == SocketMessage::Close);
        assert(b[0] == SocketMessage::Close);
    } else {
        law_nothing_after_close(before.drop_first(), after);
        assert(a.drop_first() =~= before.drop_first() + seq![SocketMessage::Close] + after);
        assert(b.drop_first() =~= before.drop_first() + seq![SocketMessage::Close]);
        assert(a[0] == before[0] && b[0] == before[0]);
    }
}

/// Cancelling is final: once a cancel is among the commands of a run, the
/// execution ends cancelled, whatever comes after it.
pub proof fn law_cancel_is_final(s: StoredExecutionStatus, cs: Seq<ClientCommand>)
    requires
        cs.contains(ClientCommand::Cancel),
    ensures
        status_after(s, cs) == StoredExecutionStatus::Cancelled,
    decreases cs.len(),
{
    if cs[0] == ClientCommand::Cancel {
        lemma_cancelled_stays(cs.drop_first());
    } else {
        let i = choose|i: int| 0 <= i < cs.len() && cs[i] == ClientCommand::Cancel;
        assert(cs.drop_first()[i - 1] == ClientCommand::Cancel);
        law_cancel_is_final(command_status(s, cs[0]), cs.drop_first());
    }
}

/// No command takes a cancelled execution out of that status.
proof fn lemma_cancelled_stays(cs: Seq<ClientCommand>)
    ensures
        status_after(StoredExecutionStatus::Cancelled, cs) == StoredExecutionStatus::Cancelled,
    decreases cs.len(),
{
    if cs.len() > 0 {
        lemma_cancelled_stays(cs.drop_first());
    }
}

/// Applies a client's command to the stored execution as of `now`, and
/// says whether it changed (and must be saved): pausing needs a running
/// execution, resuming a paused one; cancelling always applies.
pub fn apply_command(command: ClientCommand, stored: &mut StoredExecution, now: u64) -> (changed: bool)
    ensures
        final(stored).id == old(stored).id,
        final(stored).created_at == old(stored).created_at,
        final(stored).data == old(stored).data,
        final(stored).status == command_status(old(stored).status, command),
        match command {
            ClientCommand::Pause => if old(stored).status == StoredExecutionStatus::Running {
                changed && final(stored).status == StoredExecutionStatus::Paused && final(stored).updated_at == now
            } else {
                !changed && *final(stored) == *old(stored)
            },
            ClientCommand::Resume => if old(stored).status == StoredExecutionStatus::Paused {
                changed && final(stored).status == StoredExecutionStatus::Running && final(stored).updated_at == now
            } else {
                !changed && *final(stored) == *old(stored)
            },
            ClientCommand::Cancel => changed && final(stored).status == StoredExecutionStatus::Cancelled
                && final(stored).updated_at == now,
        },
{
    match command {
        ClientCommand::Pause => pause(stored, now).is_ok(),
        ClientCommand::Resume => resume(stored, now).is_ok(),
        ClientCommand::Cancel => {
            cancel(stored, now);
            true
        },
    }
}

} // verus!
