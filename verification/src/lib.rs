//! A small multi-user chat relay spoken over SSH.
//!
//! The crate holds the verified core of the relay: the shared registry of
//! open session channels, the per-connection multiplexer that decides what
//! each authentication, channel-open, data and forwarding event does, and
//! the exact framing of every line the server writes to its clients. The
//! surrounding program owns the transport: it performs the SSH handshake,
//! calls the key-verification service, and writes the bytes that the
//! decisions here tell it to write.

pub mod config;
pub mod messages;
pub mod multiplexer;
pub mod registry;
