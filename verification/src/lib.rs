//! Session orchestrator for a remote code-execution service.
//!
//! A client opens container sandboxes, uploads a source tree and runs a
//! program inside a container over a single full-duplex socket.  This crate
//! holds the verified core: the wire codec for the typed packet set, the
//! session registry, the upload coordinator and the per-connection state
//! machine that dispatches inbound frames.  The asynchronous plumbing (the
//! socket itself and the container runtime) lives outside, and hands this
//! library plain values.

pub mod archive;
pub mod chars;
pub mod container;
pub mod codec;
pub mod connection;
pub mod codec_laws;
pub mod codec_server;
pub mod ids;
pub mod jsontext;
pub mod logger;
pub mod packets;
pub mod registry;
pub mod supervisor;
