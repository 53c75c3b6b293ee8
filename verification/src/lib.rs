//! A small chat service spoken directly over the WebSocket wire protocol.
//!
//! - [`handshake`]: from the opening HTTP request to the response that
//!   switches protocols.
//! - [`frame`]: the wire format of a frame, in bytes.
//! - [`message`] and [`codec`]: the application message, and how it travels
//!   in a frame.
//! - [`escape`]: how a string is written into JSON text.
//! - [`registry`]: the connected sessions, and who receives a broadcast.
//! - [`connection`]: the state machine of one connection.
//! - [`outside`]: the calls into other crates, whose contracts are taken on
//!   trust.
//! - [`error`]: how a connection can fail.
//!
//! The library reads and writes no transport. Its caller reads, hands over
//! what was read, and writes what it is told to write.

pub mod codec;
pub mod connection;
pub mod error;
pub mod escape;
pub mod frame;
pub mod handshake;
pub mod message;
pub mod outside;
pub mod registry;
