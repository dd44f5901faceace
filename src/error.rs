use vstd::prelude::*;

verus! {

/// Failures of the transport.
#[derive(Debug, Clone, Copy, PartialEq, Eq, Structural)]
pub enum VvuError {
    /// An operation other than `start` was attempted before `start`.
    NotStarted,
    /// `start` was called on a device that is already running.
    AlreadyStarted,
    /// A message is shorter than its header, its length disagrees with its
    /// header, a read spans two messages, or a write holds more than one message.
    FramingViolation,
    /// Descriptors were handed to a transport that carries bytes only.
    SideChannelUnsupported,
    /// The other side tore the transport down (an empty message was received).
    Disconnected,
    /// Any other unrecoverable failure.
    Fatal,
}

} // verus!
