//! The error taxonomy that every layer of the channel reports.

use vstd::prelude::*;

verus! {

/// Errors that the library can return.
#[derive(Debug, Clone, PartialEq, Eq)]
pub enum ShmError {
    /// The requested operation needs a connection and there is none.
    NotConnected,
    /// The endpoint or worker is still setting up or already shutting down.
    NotReady,
    /// A second handshake was attempted on an already connected endpoint.
    AlreadyConnected,
    /// A blocking wait expired.
    Timeout,
    /// `read_message` found no message in the ring.
    QueueEmpty,
    /// The ring could not accept the message without overwriting (reserved).
    QueueFull,
    /// The payload is below the minimum message size.
    MessageTooSmall,
    /// The payload exceeds the maximum message size or the ring itself.
    MessageTooLarge,
    /// A stored header length is out of range, or the segment magic is wrong.
    Corrupted,
    /// The handshake could not be completed (wrong version or state).
    HandshakeFailed,
    /// An underlying platform primitive failed.
    WindowsError { code: u32, context: &'static str },
    /// The multi-client server has no free slot left.
    NoFreeSlot,
}

impl ShmError {
    /// A short, stable name for the error, for logs and messages.
    pub fn describe(&self) -> &'static str {
        match self {
            ShmError::NotConnected => "endpoint is not connected",
            ShmError::NotReady => "endpoint is not ready yet",
            ShmError::AlreadyConnected => "endpoint is already connected",
            ShmError::Timeout => "operation timed out",
            ShmError::QueueEmpty => "no messages available",
            ShmError::QueueFull => "message queue is full",
            ShmError::MessageTooSmall => "message is too small",
            ShmError::MessageTooLarge => "message is too large",
            ShmError::Corrupted => "shared ring buffer is corrupted",
            ShmError::HandshakeFailed => "handshake failed",
            ShmError::WindowsError { .. } => "windows error",
            ShmError::NoFreeSlot => "no free slots available on multi-client server",
        }
    }
}

} // verus!
