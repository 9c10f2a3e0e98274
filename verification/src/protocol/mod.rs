//! # Protocol
//!
//! The binary protocol between the AI node and the control node:
//! message payloads ([`messages`]) and the framing with CRC-8 ([`codec`]).

pub mod codec;
pub mod messages;

pub use codec::{encode, Codec, DecodeResult};
pub use messages::{ErrorCode, Message, MessageError, FRAME_END, FRAME_START};
