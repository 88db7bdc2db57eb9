//! Scheduler and state store of a synthetic-monitoring agent: bounded result
//! histories, the active configuration, per-check scheduling decisions and
//! hot reload.

pub mod app_state;
pub mod config;
pub mod history;
pub mod metrics;
pub mod model;
pub mod reload;
pub mod sources;
pub mod status;

