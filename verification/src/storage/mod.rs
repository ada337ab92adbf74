//! What is stored about executions and workflows.

pub mod state;
pub mod workflow_store;
