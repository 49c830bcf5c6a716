//! The logging sidecar: what a request's log line says, when the log file
//! is changed for the next day's, and which old files go.

pub mod config;
pub mod middleware;
pub mod stamp;
