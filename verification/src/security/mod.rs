//! Security: which tools may run, and what processes and paths they may use.

pub mod permissions;
pub mod isolation;
pub mod audit;
