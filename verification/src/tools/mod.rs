//! Command-line tools around the service.
pub mod tcpcli;
