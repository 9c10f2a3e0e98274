//! # Transport
//!
//! The [`Transport`] trait for sending and receiving protocol [`Message`]s
//! over a physical layer, and the serial-port selection logic.

pub mod serial;

use crate::protocol::messages::Message;
use vstd::prelude::*;

verus! {

/// A transport channel that can send and receive protocol [`Message`]s.
///
/// Implement this trait to add new transport backends (serial, UDP, ...).
pub trait Transport {
    type Error: core::fmt::Debug + Send + Sync + 'static;

    /// Sends a message; blocks until all bytes are handed to the I/O layer.
    fn send(&mut self, msg: &Message) -> Result<(), Self::Error>;

    /// Non-blocking receive: the next decoded message if one is available,
    /// or `None` if no complete frame is ready yet.
    fn receive(&mut self) -> Result<Option<Message>, Self::Error>;
}

} // verus!
