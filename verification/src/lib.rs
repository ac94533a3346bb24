//! The core of a TCP port scanner: the guarded scan configuration, what a
//! single probe passes on, the bookkeeping of the probe engine, and the
//! report on the ports that were found open.
//!
//! Nothing here touches the network. The caller connects, runs the tasks
//! and prints; this library decides which ports are probed and in which
//! order, which of the ports that come back count as open, and what the
//! report says.

pub mod config;
pub mod numeral;
pub mod probe;
pub mod engine;
pub mod report;
