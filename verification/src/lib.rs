//! Core of a LAN chat client: the framed wire protocol, the outgoing-message
//! rate limiter, the connection state machine and the application state that
//! network events are folded into.
//!
//! Everything here is pure with respect to the network: sockets, channels and
//! threads live with the caller, which feeds results in and carries actions out.

pub mod bigendian;
pub mod buffer;
pub mod clock;
pub mod config;
pub mod net;
pub mod protocol;
pub mod ratelimit;
pub mod state;
pub mod text;
