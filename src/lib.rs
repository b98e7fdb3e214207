//! Host metrics sampled from the operating system, turned into percentages
//! and per-second rates, cached for a fixed interval and rendered as a
//! seven-line plain-text payload.

pub mod text;
pub mod format;
pub mod metrics;
pub mod probe;
pub mod cache;
pub mod config;
pub mod http;
