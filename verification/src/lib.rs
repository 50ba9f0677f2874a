//! Verified core of a single-GPU model server.

pub mod call_laws;
pub mod cli;
pub mod content;
pub mod counters;
pub mod errors;
pub mod gates;
pub mod header_laws;
pub mod http;
pub mod json;
pub mod keep_alive;
pub mod lifecycle_laws;
pub mod load;
pub mod messages;
pub mod metrics;
pub mod registry;
pub mod sampling;
pub mod slot_laws;
pub mod serve_config;
pub mod session_cache;
pub mod ssd_tier;
pub mod state;
pub mod stream;
pub mod stream_laws;
pub mod text;
pub mod timers;
pub mod tool_parser;
pub mod tools;
