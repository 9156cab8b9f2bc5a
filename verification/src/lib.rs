//! Core of a multi-user chat service: a length-prefixed wire codec for typed
//! payloads, a command-line parser, a transactional user store with salted
//! password digests and a message history, a bounded broadcast bus, and the
//! per-connection session state machine that ties them together.
//!
//! Everything here is verified; the surrounding process (sockets, files,
//! clocks) lives outside and exchanges plain values with this crate.

pub mod message;
pub mod wire;
pub mod frame;
pub mod parse;
pub mod store;
pub mod bus;
pub mod session;
pub mod err;
pub mod cli;
pub mod web;
pub mod text;
pub mod table;
pub mod transform;
pub mod client;
