//! Tools that agents use: what they declare, how their calls are read,
//! which calls they refuse, and what they give back.

pub mod types;
pub mod registry;
pub mod filesystem;
pub mod shell;
pub mod web_scraper;
pub mod clipboard;
pub mod pdf;
pub mod api_client;
