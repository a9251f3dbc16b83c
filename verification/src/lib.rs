//! Storage engine for a transient text-paste service.
//!
//! Clients submit arbitrary byte content and receive a short, human-readable
//! identifier; the content can later be retrieved by that identifier. The
//! engine covers identifier generation, the compressed on-disk representation,
//! the streaming ingest pump, and time-based retention sweeping. Transport
//! front ends (HTTP handlers, raw sockets) live outside this crate and talk to
//! the engine through plain values.

pub mod codec;
pub mod config;
pub mod error;
pub mod handlers;
pub mod ident;
pub mod laws;
pub mod options;
pub mod pump;
pub mod store;
pub mod sweep;
pub mod text;
