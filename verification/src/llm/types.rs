//! Chat messages sent to language models.

use vstd::prelude::*;
use crate::text::owned;
use crate::time::current_time;

verus! {

/// Who wrote a message.
#[derive(Debug, Clone, Copy, PartialEq, Eq, Structural)]
pub enum MessageRole {
    System,
    User,
    Assistant,
}

/// A chat message: its author, text and creation time (Unix seconds).
#[derive(Debug)]
pub struct Message {
    pub role: MessageRole,
    pub content: String,
    pub timestamp: i64,
}

impl Message {
    /// A message written now.
    pub fn new(role: MessageRole, content: &str) -> (m: Self)
        ensures
            m.role == role,
            m.content@ == content@,
            m.timestamp >= 0,
    {
        Message { role, content: owned(content), timestamp: current_time().secs }
    }

    /// A system message written now.
    pub fn system(content: &str) -> (m: Self)
        ensures
            m.role == MessageRole::System,
            m.content@ == content@,
    {
        Self::new(MessageRole::System, content)
    }

    /// A user message written now.
    pub fn user(content: &str) -> (m: Self)
        ensures
            m.role == MessageRole::User,
            m.content@ == content@,
    {
        Self::new(MessageRole::User, content)
    }

    /// An assistant message written now.
    pub fn assistant(content: &str) -> (m: Self)
        ensures
            m.role == MessageRole::Assistant,
            m.content@ == content@,
    {
        Self::new(MessageRole::Assistant, content)
    }
}

} // verus!
