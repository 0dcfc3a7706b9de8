//! Polling-and-caching core of an exporter that turns CI usage and billing
//! figures into labelled gauge values.

pub mod types;
pub mod cache;
pub mod metrics;
pub mod usage;
pub mod billing;
pub mod tasks;
