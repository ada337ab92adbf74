//! The workflow engine: definitions, execution context, interpolation,
//! validation, merging of results and the executors.

pub mod types;
pub mod interpolation;
pub mod parser;
pub mod dag;
pub mod merge;
pub mod events;
pub mod executor;
pub mod parallel;
pub mod unified_executor;
