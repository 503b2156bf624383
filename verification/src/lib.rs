//! Sampling-and-delta engine of a host resource monitor.
//!
//! Stateful collectors turn monotonically increasing kernel counters
//! (CPU, memory, disk, network, per-process, temperature, host identity)
//! into point-in-time rates and aggregate them into one snapshot that a
//! transport layer reads as a serialized string.

pub mod cpu;
pub mod disk;
pub mod host;
pub mod json;
pub mod net;
pub mod pace;
pub mod proc;
pub mod ram;
pub mod status;
pub mod temp;
pub mod text;
