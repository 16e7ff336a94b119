//! A small key-value service: an in-memory store, the server-side logic that
//! applies decoded commands to it one connection at a time, and the
//! client-side multiplexer that lets many callers share one connection.
//! Frames on the wire are mini-redis frames; parsing and building them is
//! delegated to that crate behind a handful of trusted declarations.

pub mod client;
pub mod codec;
pub mod command;
pub mod laws;
pub mod server;
pub mod store;
