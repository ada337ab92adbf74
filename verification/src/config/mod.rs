//! Configuration: its sections, their defaults, and how files, the
//! environment and the command line change them.

pub mod types;
pub mod loader;
