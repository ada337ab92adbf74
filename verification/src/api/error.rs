//! Errors that the HTTP interface answers with.

use vstd::prelude::*;
use crate::error::{Error, error_message};
use crate::json::JsonValue;
use crate::text::{concat, owned, str_eq};

verus! {

/// An error answer: a code, a message and optional details.
#[derive(Debug)]
pub struct ApiError {
    pub code: String,
    pub message: String,
    pub details: Option<JsonValue>,
}

/// The HTTP status that answers an error code.
pub open spec fn status_for_code(code: Seq<char>) -> u16 {
    if code == "NOT_FOUND"@ {
        404
    } else if code == "BAD_REQUEST"@ || code == "INVALID_WORKFLOW"@ || code == "INVALID_INPUT"@ {
        400
    } else if code == "PERMISSION_DENIED"@ || code == "FORBIDDEN"@ {
        403
    } else if code == "UNAUTHORIZED"@ {
        401
    } else {
        500
    }
}

/// The code and message that answer an error of the library.
pub open spec fn answer_for(err: Error) -> (Seq<char>, Seq<char>) {
    match err {
        Error::WorkflowNotFound { workflow_id } => ("NOT_FOUND"@, "Workflow"@ + " '"@ + workflow_id@ + "' not found"@),
        Error::InvalidWorkflowDefinition { reason } => ("BAD_REQUEST"@, "Invalid workflow: "@ + reason@),
        Error::Internal(m) => ("INTERNAL_ERROR"@, m@),
        _ => ("INTERNAL_ERROR"@, error_message(err)),
    }
}

impl ApiError {
    /// An error with the given code and message and no details.
    pub fn new(code: &str, message: &str) -> (e: Self)
        ensures
            e.code@ == code@,
            e.message@ == message@,
            e.details is None,
    {
        ApiError { code: owned(code), message: owned(message), details: None }
    }

    /// The same error, with details.
    pub fn with_details(self, details: JsonValue) -> (e: Self)
        ensures
            e.code == self.code,
            e.message == self.message,
            e.details == Some(details),
    {
        ApiError { code: self.code, message: self.message, details: Some(details) }
    }

    /// `{resource} '{id}' not found`.
    pub fn not_found(resource: &str, id: &str) -> (e: Self)
        ensures
            e.code@ == "NOT_FOUND"@,
            e.message@ == resource@ + " '"@ + id@ + "' not found"@,
            e.details is None,
    {
        let a = concat(resource, " '");
        let b = concat(a.as_str(), id);
        let m = concat(b.as_str(), "' not found");
        Self::new("NOT_FOUND", m.as_str())
    }

    /// A request that cannot be served as made.
    pub fn bad_request(message: &str) -> (e: Self)
        ensures
            e.code@ == "BAD_REQUEST"@,
            e.message@ == message@,
            e.details is None,
    {
        Self::new("BAD_REQUEST", message)
    }

    /// A failure inside the server.
    pub fn internal_error(message: &str) -> (e: Self)
        ensures
            e.code@ == "INTERNAL_ERROR"@,
            e.message@ == message@,
            e.details is None,
    {
        Self::new("INTERNAL_ERROR", message)
    }

    /// A refused permission.
    pub fn permission_denied(message: &str) -> (e: Self)
        ensures
            e.code@ == "PERMISSION_DENIED"@,
            e.message@ == message@,
            e.details is None,
    {
        Self::new("PERMISSION_DENIED", message)
    }

    /// The HTTP status of the answer.
    pub fn status_code(&self) -> (s: u16)
        ensures
            s == status_for_code(self.code@),
    {
        let c = self.code.as_str();
        if str_eq(c, "NOT_FOUND") {
            404
        } else if str_eq(c, "BAD_REQUEST") || str_eq(c, "INVALID_WORKFLOW") || str_eq(c, "INVALID_INPUT") {
            400
        } else if str_eq(c, "PERMISSION_DENIED") || str_eq(c, "FORBIDDEN") {
            403
        } else if str_eq(c, "UNAUTHORIZED") {
            401
        } else {
            500
        }
    }

    /// The answer to an error of the library: a missing workflow is not
    /// found, an invalid one is a bad request, anything else is internal.
    pub fn from_error(err: Error) -> (e: Self)
        ensures
            e.code@ == answer_for(err).0,
            e.message@ == answer_for(err).1,
            e.details is None,
    {
        match err {
            Error::WorkflowNotFound { workflow_id } => Self::not_found("Workflow", workflow_id.as_str()),
            Error::InvalidWorkflowDefinition { reason } => {
                let m = concat("Invalid workflow: ", reason.as_str());
                Self::bad_request(m.as_str())
            },
            Error::Internal(msg) => Self::internal_error(msg.as_str()),
            other => {
                let m = other.message();
                Self::internal_error(m.as_str())
            },
        }
    }
}

} // verus!
