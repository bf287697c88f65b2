//! The logic of the `tcp-echo` load generator: its command line, the rate
//! limiter shared by its writer threads, the adaptive connection ramp and
//! the per-port report.

pub mod cli;
pub mod rate;
pub mod ramp;
pub mod adaptive;
pub mod report;
