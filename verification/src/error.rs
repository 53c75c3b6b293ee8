//! The ways in which one connection can fail.

use vstd::prelude::*;

verus! {

/// A failure that ends the connection on which it occurred, and no other.
#[derive(Clone, Copy, Debug, PartialEq, Eq, Structural)]
pub enum ChatError {
    /// The opening request carries no usable `Sec-WebSocket-Key` header, or
    /// the first bytes of a connection are not an HTTP request at all.
    HandshakeMalformed,
    /// The buffer ends before the frame that its header announces.
    FrameIncomplete,
    /// The payload is not UTF-8 text, or the text is not a message.
    FrameMalformed,
    /// The transport of the connection failed.
    TransportFatal,
}

} // verus!
