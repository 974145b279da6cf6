//! The logic of a log forwarder whose stages are WebAssembly components.
pub mod base64;
pub mod batch;
pub mod bytes;
pub mod config;
pub mod dispatch;
pub mod endpoint;
pub mod entry;
pub mod fault_filter;
pub mod filter_stage;
pub mod format_stage;
pub mod frames;
pub mod headers;
pub mod host_check;
pub mod hot_swap;
pub mod json_parser;
pub mod level_filter;
pub mod limiter;
pub mod parse_stage;
pub mod pipeline;
pub mod pool;
pub mod report;
pub mod stats;
pub mod tail_input;
pub mod text;
pub mod transport_plugin;
pub mod transport_stage;
pub mod usage;
