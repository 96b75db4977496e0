//! Read-throughput and latency benchmarking for a memory-access backend:
//! block-size calibration, per-second statistics and result records.

pub mod aggregator;
pub mod calibrator;
pub mod cli;
pub mod connector;
pub mod console;
pub mod error;
pub mod rate;
pub mod session;
pub mod stats;
pub mod text;

pub use cli::Cli;
pub use connector::Connector;
