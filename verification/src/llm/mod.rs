//! Language models: chat messages, what is sent to the chat services, what
//! is read back, and how a fallback provider takes over.

pub mod types;
pub mod providers;
