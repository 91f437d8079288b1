//! One-way network bridge: a TCP byte stream is carried over a link on which
//! nothing can flow back. The sender cuts the stream into blocks, protects each
//! block with forward error correction and emits it as UDP datagrams; the
//! receiver regroups datagrams into blocks, decodes them and rebuilds the stream.
//!
//! This crate holds the rules of that pipeline: wire framing, block framing,
//! lane dispatch, the reorder buffer, the egress session machine and the
//! settings derived from a configuration. Sockets, threads and clocks are left
//! to the caller, which feeds events in and carries actions out.

pub mod clock;
pub mod config;
pub mod file;
pub mod protocol;
pub mod receive;
pub mod send;
pub mod stats;
pub mod stream;
pub mod test;
pub mod udp;
