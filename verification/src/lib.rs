//! Verified core of a bidirectional message transport.
//!
//! The library multiplexes four traffic kinds - fire-and-forget events,
//! tagged binary streams, outbound remote calls and their replies - over a
//! single long-lived connection. The wire codec, the per-kind handler
//! registries, the connection lifecycle and the RPC correlation engine live
//! here, fully verified; the socket, the async runtime and the embedding
//! host callbacks stay with the caller.

pub mod base;
pub mod connect;
pub mod server;
