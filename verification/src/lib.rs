//! Harmony-aligned agent orchestration: the decision logic of the runner,
//! model request/response shaping, tool and plugin registries, configuration
//! overlays, event-stream reading and small text utilities.

pub mod utils;
pub mod json;
pub mod model;
pub mod error;
pub mod results;
pub mod agent;
pub mod config;
pub mod tools;
pub mod plugin;
pub mod realtime;
pub mod voice;
pub mod mcp_server;
pub mod memory;
pub mod cli;
