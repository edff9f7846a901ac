//! Engine of a host monitor: per-host rolling statistics over a bounded
//! window of samples, the store that holds them, and the supervisor that
//! decides which probe loops run.

pub mod addr;
pub mod app;
pub mod cli;
pub mod distinct;
pub mod export;
pub mod http_stats;
pub mod parser;
pub mod probe;
pub mod ratio;
pub mod registry;
pub mod stats;
pub mod store;
pub mod text;
pub mod timing;
pub mod ui;
pub mod window;
