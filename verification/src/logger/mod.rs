//! Leveled, timestamped diagnostics.

pub mod log;
