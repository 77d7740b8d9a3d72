//! Query pipeline for a remote observability service: time expressions,
//! failure classification, metric flattening, the streaming executor and
//! line-delimited JSON framing, each with a machine-checked contract.

pub mod cli;
pub mod clock;
pub mod config;
pub mod error;
pub mod executor;
pub mod logging;
pub mod metrics;
pub mod output;
pub mod request;
pub mod text;
pub mod time;
