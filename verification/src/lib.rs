//! Verified core of a local workflow orchestrator for AI agents: the workflow
//! model, template interpolation, validation, result merging, permission
//! policies, configuration defaults and the execution engine.

pub mod text;
pub mod json;
pub mod numbers;
pub mod time;
pub mod config;
pub mod error;
pub mod engine;
pub mod security;
pub mod storage;
pub mod api;
pub mod llm;
pub mod registry;
pub mod tools;
pub mod memory;
pub mod agents;
pub mod cli;
