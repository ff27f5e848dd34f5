//! A minimal rendezvous protocol for UDP hole punching: the server-side
//! registration table and datagram dispatch, the client-side handshake, and
//! the textual address forms both put on the wire.
pub mod address;
pub mod client;
pub mod code;
pub mod logger;
pub mod rendezvous;
pub mod stun;
pub mod text;
pub mod utils;
pub mod wire;
