//! Message transport for a vhost-user backend that talks to its frontend over a
//! pair of virtqueues instead of a socket.
//!
//! The library turns a byte stream written by a vhost-user protocol layer into
//! whole framed messages for the transmit queue, routes framed messages coming
//! from the receive queue to the frontend or backend endpoint, and hands them back
//! to readers as a byte stream that never crosses a message boundary.

pub mod channel;
pub mod device;
pub mod error;
pub mod header;
pub mod receiver;
pub mod rxq;
pub mod txq;
