//! Routing of requests to handlers.

pub mod router;
