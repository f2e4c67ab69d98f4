//! The query client and the IPC hub of a game launcher, without their sockets.
//!
//! The modules hold what is decided and computed: how a datagram is built and
//! decoded, which facet is asked for next and what is recorded for it, how a
//! line from a game process is read and what it does to the overlay windows
//! and the stream registry. Sockets, clocks and windows stay with the caller.

pub mod codec;
pub mod cooldown;
pub mod error;
pub mod ipc;
pub mod orchestrator;
pub mod query;
pub mod text;
pub mod wire;
