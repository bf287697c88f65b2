//! The logic of the Prometheus exporter for the tcpstats kernel module: the
//! per-state socket counts of a collection pass and their rendering in the
//! Prometheus text exposition format.

pub mod collector;
pub mod metrics;
