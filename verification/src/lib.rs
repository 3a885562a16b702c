//! Stateful GPU usage sampling: parses per-descriptor accounting text,
//! deduplicates shared contexts, converts monotonic engine busy-time
//! counters into percentage-like rates between polls, and decodes
//! versioned device telemetry with "unsupported" sentinel suppression.

pub mod fdinfo;
pub mod gpu_metrics;
pub mod parse;
pub mod render;
pub mod sort;
mod text;

pub use text::Text;
