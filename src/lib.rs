//! Session relay engine for a real-time multiplayer game: the binary packet
//! codec, the client registry and the broadcast / rewrite decisions.
//!
//! Everything here is plain computation on values; sockets, tasks and locks
//! belong to the program that drives the engine.

pub mod wire;
pub mod text;
pub mod packet_type;
pub mod constants;
pub mod header;
pub mod packets;
pub mod motion;
pub mod payload;
pub mod settings;
pub mod client;
pub mod server;
