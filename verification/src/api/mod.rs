//! The logic behind the HTTP interface: error answers, execution reports
//! and the checks on submitted workflows.

pub mod error;
pub mod executions;
pub mod workflows;
pub mod websocket;
