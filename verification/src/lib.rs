//! Authoritative core of a small real-time arcade server.
//!
//! The crate holds the rules of the game and of the server around it as
//! verified functions on plain values: the world and its per-tick state
//! machine, the last-write-wins input mailbox, the connection registry, and
//! the one-message-per-stream protocol. Transport, timing and rendering are
//! left to the program that links the crate.

mod ambient;
pub mod bytes;
pub mod client;
pub mod engine;
pub mod game;
pub mod input;
pub mod protocol;
pub mod quic_server;
pub mod registry;
