//! Errors of the library.

use vstd::prelude::*;
use std::time::Duration;
use crate::text::{concat, owned};

verus! {

/// Text that `{:?}` gives for a list of strings.
pub uninterp spec fn debug_list_text(items: Seq<Seq<char>>) -> Seq<char>;

/// Text that `{:?}` gives for a duration.
pub uninterp spec fn duration_debug_text(d: Duration) -> Seq<char>;

/// The last `n` lowercase hexadecimal digits of `v`, most significant first.
pub open spec fn hex_digits(v: nat, n: nat) -> Seq<char>
    decreases n,
{
    if n == 0 {
        Seq::empty()
    } else {
        hex_digits(v / 16, (n - 1) as nat).push(crate::json::hex_char(v % 16))
    }
}

/// Text of a 128-bit identifier in the hyphenated lowercase form of a UUID:
/// its 32 hexadecimal digits, most significant first, in groups of 8, 4, 4,
/// 4 and 12 joined by `-`.
pub open spec fn uuid_text(id: u128) -> Seq<char> {
    let h = hex_digits(id as nat, 32);
    h.subrange(0, 8) + seq!['-'] + h.subrange(8, 12) + seq!['-'] + h.subrange(12, 16) + seq!['-']
        + h.subrange(16, 20) + seq!['-'] + h.subrange(20, 32)
}

/// Formats a list of strings with `{:?}` (std's `Debug` for `Vec<String>`):
/// the result is named by `debug_list_text` of the strings' characters.
#[verifier::external_body]
pub(crate) fn debug_list(items: &Vec<String>) -> (s: String)
    ensures
        s@ == debug_list_text(items@.map_values(|x: String| x@)),
{
    format!("{:?}", items)
}

/// Formats a duration with `{:?}` (std's `Debug` for `Duration`): the result
/// is named by `duration_debug_text`.
#[verifier::external_body]
pub(crate) fn debug_duration(d: &Duration) -> (s: String)
    ensures
        s@ == duration_debug_text(*d),
{
    format!("{:?}", d)
}

/// Formats an identifier as a UUID with `uuid::Uuid::from_u128(id).to_string()`
/// (the big-endian bytes of `id`, printed hyphenated in lowercase): the
/// result is `uuid_text(id)`.
#[verifier::external_body]
pub(crate) fn uuid_to_string(id: u128) -> (s: String)
    ensures
        s@ == uuid_text(id),
{
    uuid::Uuid::from_u128(id).to_string()
}

/// Errors that the orchestrator reports.
#[derive(Debug)]
pub enum Error {
    WorkflowNotFound { workflow_id: String },
    InvalidWorkflowDefinition { reason: String },
    VariableNotFound { variable: String, suggestions: Vec<String> },
    CircularDependency { agents: Vec<String> },
    ExecutionNotFound { execution_id: u128 },
    ExecutionTimeout { timeout: Duration },
    Storage(String),
    Serialization(String),
    Io(String),
    Config(String),
    Internal(String),
}

/// The message that an error displays.
pub open spec fn error_message(e: Error) -> Seq<char> {
    match e {
        Error::WorkflowNotFound { workflow_id } =>
            "Workflow '"@ + workflow_id@ + "' not found"@,
        Error::InvalidWorkflowDefinition { reason } =>
            "Invalid workflow definition: "@ + reason@,
        Error::VariableNotFound { variable, suggestions } =>
            "Variable '"@ + variable@ + "' not found. Did you mean: "@
                + debug_list_text(suggestions@.map_values(|x: String| x@)),
        Error::CircularDependency { agents } =>
            "Circular dependency detected: "@ + debug_list_text(agents@.map_values(|x: String| x@)),
        Error::ExecutionNotFound { execution_id } =>
            "Execution '"@ + uuid_text(execution_id) + "' not found"@,
        Error::ExecutionTimeout { timeout } =>
            "Execution timeout after "@ + duration_debug_text(timeout),
        Error::Storage(m) => "Storage error: "@ + m@,
        Error::Serialization(m) => "Serialization error: "@ + m@,
        Error::Io(m) => "IO error: "@ + m@,
        Error::Config(m) => "Config error: "@ + m@,
        Error::Internal(m) => "Internal error: "@ + m@,
    }
}

impl Error {
    /// The message of this error, as it is displayed.
    pub fn message(&self) -> (s: String)
        ensures
            s@ == error_message(*self),
    {
        match self {
            Error::WorkflowNotFound { workflow_id } => {
                let a = concat("Workflow '", workflow_id.as_str());
                concat(a.as_str(), "' not found")
            },
            Error::InvalidWorkflowDefinition { reason } => {
                concat("Invalid workflow definition: ", reason.as_str())
            },
            Error::VariableNotFound { variable, suggestions } => {
                let a = concat("Variable '", variable.as_str());
                let b = concat(a.as_str(), "' not found. Did you mean: ");
                let d = debug_list(suggestions);
                concat(b.as_str(), d.as_str())
            },
            Error::CircularDependency { agents } => {
                let d = debug_list(agents);
                concat("Circular dependency detected: ", d.as_str())
            },
            Error::ExecutionNotFound { execution_id } => {
                let a = concat("Execution '", uuid_to_string(*execution_id).as_str());
                concat(a.as_str(), "' not found")
            },
            Error::ExecutionTimeout { timeout } => {
                let d = debug_duration(timeout);
                concat("Execution timeout after ", d.as_str())
            },
            Error::Storage(m) => concat("Storage error: ", m.as_str()),
            Error::Serialization(m) => concat("Serialization error: ", m.as_str()),
            Error::Io(m) => concat("IO error: ", m.as_str()),
            Error::Config(m) => concat("Config error: ", m.as_str()),
            Error::Internal(m) => concat("Internal error: ", m.as_str()),
        }
    }
}

} // verus!
