//! Agents: their definitions, tasks and outputs.

pub mod types;
pub mod registry;
