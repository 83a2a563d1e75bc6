//! A local developer-workflow runner: fail-fast quality-gate pipelines,
//! an append-only run log, and statistics over past runs.

pub mod stats;
pub mod cli;
pub mod metrics;
pub mod runner;
pub mod config;
pub mod templates;
pub mod report;
pub mod doctor;
