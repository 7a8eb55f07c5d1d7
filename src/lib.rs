//! A client for a time-tracking service: it turns the service's records into
//! domain values, decoding its duration encoding and resolving projects
//! through a write-once cache, and leaves the network exchange to its caller.
pub mod api;
pub mod commands;
pub mod error;
pub mod svc;
pub mod time;
