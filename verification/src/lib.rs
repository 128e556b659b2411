//! Core logic of an HTTP load-testing tool: configuration parsing and
//! validation, rate limiting, ramp-up scheduling, retry decisions,
//! response validation, statistics and report data.

pub mod text;
pub mod config;
pub mod rate_limit;
pub mod validation;
pub mod cli;
pub mod retry;
pub mod rate_limiter;
pub mod histogram;
pub mod stats;
pub mod engine;
pub mod report;
pub mod ui;
