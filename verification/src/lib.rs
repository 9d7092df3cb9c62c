//! Verified core of a PeerJS signalling server: the room of connected
//! peers, their queued messages, the routing of signalling messages and the
//! periodic housekeeping, with the server configuration.
//!
//! The HTTP and WebSocket plumbing lives in the `app/` crate, which drives
//! the state machines defined here.

pub mod room;
mod clock;
pub mod assoc;
pub mod services;
pub mod wshandler;
pub mod server;
pub mod config;
pub mod text;
pub mod calendar;
pub mod laws;
