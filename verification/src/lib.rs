//! Decision logic of a small container-monitoring service: ranking of
//! containers by resource usage, lookup of the log container through
//! docker command outputs, and the text of the reports, log entries and
//! answers that the service produces.

pub mod consumers;
pub mod cpu_classes;
pub mod docker;
pub mod ranking;
pub mod report;
pub mod submission;
pub mod sysinfo;
pub mod text;
