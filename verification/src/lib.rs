//! A library server core: loads directory-based prompt libraries, dispatches
//! JSON-RPC requests against them, caches responses, and manages the lifecycle
//! of per-repository server instances and filesystem watches.

pub mod clock;
pub mod config;
pub mod file_watcher;
pub mod json;
pub mod mcp;
pub mod parser;
pub mod persistence;
pub mod registry;
pub mod security;
pub mod strutil;
pub mod types;
