//! Measurement core of a speed-test tool.

pub mod cli;
pub mod config;
pub mod download;
pub mod histogram;
pub mod latency;
pub mod metadata;
pub mod order;
pub mod phase;
pub mod report;
pub mod sampler;
pub mod session;
pub mod stats;
pub mod text;
pub mod ui;
pub mod upload;
pub mod wide;
