//! The verified core of a small static web server: a fixed-size worker pool,
//! a route table, request-line validation, response framing and a leveled logger.
//!
//! This crate opens no socket, reads no file and starts no thread; the one thing
//! it asks of the system is the time, for its log lines. A host program owns the
//! sockets, files and threads, and asks this crate what to do with them.

pub mod config;
pub mod http;
pub mod logger;
pub mod router;
pub mod text;
pub mod thread;
