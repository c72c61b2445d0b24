//! Sensor polling core for a telemetry collector.
//!
//! Heterogeneous sensors (device temperature, network byte counters) share one
//! scheduling loop: each sensor is polled no more often than its configured
//! interval asks, the loop sleeps exactly until the soonest sensor is due, and
//! a failure of one sensor never stops the others from reporting.
//!
//! All file, broker and clock access stays outside this crate: callers hand in
//! monotonic timestamps and raw file contents, and take readings back.

pub mod digits;
pub mod net;
pub mod parse;
pub mod path_name;
pub mod poller;
pub mod sensor;
pub mod temp;
pub mod vars;
