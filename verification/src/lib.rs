//! A single-threaded, readiness-driven HTTP server core: the listening socket's
//! state, the per-connection state machine, the request router and the reactor's
//! decisions, each with a verified contract. The system calls themselves are made
//! by the embedding program, which hands their outcomes to this library.

pub mod bytes;
pub mod connection;
pub mod error_utils;
pub mod handler;
pub mod header;
pub mod oscode;
pub mod protocol;
pub mod request;
pub mod response;
pub mod router;
pub mod server;
pub mod socket;
