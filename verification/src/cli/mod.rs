//! The command line.

pub mod commands;
