//! # Protocol Messages
//!
//! All message types exchanged between the AI node and the control node,
//! with their wire-level type bytes and payload encodings.
//!
//! | ID   | Name          | Payload                          |
//! |------|---------------|----------------------------------|
//! | 0x01 | SENSOR_DATA   | temp_raw: u16 big-endian         |
//! | 0x02 | FAN_COMMAND   | speed: u8                        |
//! | 0x03 | FAN_OFF       | (none)                           |
//! | 0x10 | HEARTBEAT     | uptime_ms: u32 big-endian        |
//! | 0x11 | ACK           | acked_type: u8                   |
//! | 0xFE | ERROR         | error_code: u8                   |

use vstd::prelude::*;

verus! {

/// Frame start delimiter.
pub const FRAME_START: u8 = 0xAA;

/// Frame end delimiter.
pub const FRAME_END: u8 = 0x55;

/// Maximum payload size in bytes.
pub const MAX_PAYLOAD_LEN: usize = 250;

/// Protocol-level error codes carried by ERROR messages.
#[derive(Debug, Clone, Copy, PartialEq, Eq, Structural)]
pub enum ErrorCode {
    /// Received a frame with an invalid CRC (wire byte 0x01).
    CrcMismatch,
    /// Received an unknown message type (wire byte 0x02).
    UnknownMessageType,
    /// Payload length out of the expected range (wire byte 0x03).
    InvalidPayloadLength,
    /// Sensor read failure on the control node (wire byte 0x04).
    SensorReadFailure,
    /// Generic / unknown error (wire byte 0xFF).
    Unknown,
}

/// The wire byte of an error code.
pub open spec fn spec_error_code_byte(c: ErrorCode) -> u8 {
    match c {
        ErrorCode::CrcMismatch => 0x01,
        ErrorCode::UnknownMessageType => 0x02,
        ErrorCode::InvalidPayloadLength => 0x03,
        ErrorCode::SensorReadFailure => 0x04,
        ErrorCode::Unknown => 0xFF,
    }
}

/// The error code that a wire byte stands for; every byte outside the known
/// codes reads as `Unknown`.
pub open spec fn spec_error_code_from_byte(b: u8) -> ErrorCode {
    if b == 0x01 {
        ErrorCode::CrcMismatch
    } else if b == 0x02 {
        ErrorCode::UnknownMessageType
    } else if b == 0x03 {
        ErrorCode::InvalidPayloadLength
    } else if b == 0x04 {
        ErrorCode::SensorReadFailure
    } else {
        ErrorCode::Unknown
    }
}

impl ErrorCode {
    /// The wire byte of this error code.
    pub fn as_byte(&self) -> (b: u8)
        ensures
            b == spec_error_code_byte(*self),
    {
        match self {
            ErrorCode::CrcMismatch => 0x01,
            ErrorCode::UnknownMessageType => 0x02,
            ErrorCode::InvalidPayloadLength => 0x03,
            ErrorCode::SensorReadFailure => 0x04,
            ErrorCode::Unknown => 0xFF,
        }
    }
}

impl From<u8> for ErrorCode {
    fn from(v: u8) -> (r: Self) {
        if v == 0x01 {
            ErrorCode::CrcMismatch
        } else if v == 0x02 {
            ErrorCode::UnknownMessageType
        } else if v == 0x03 {
            ErrorCode::InvalidPayloadLength
        } else if v == 0x04 {
            ErrorCode::SensorReadFailure
        } else {
            ErrorCode::Unknown
        }
    }
}

impl vstd::std_specs::convert::FromSpecImpl<u8> for ErrorCode {
    open spec fn obeys_from_spec() -> bool {
        true
    }

    open spec fn from_spec(v: u8) -> ErrorCode {
        spec_error_code_from_byte(v)
    }
}

/// Reading back the wire byte of an error code gives the same code.
pub proof fn lemma_error_code_round_trip(c: ErrorCode)
    ensures
        spec_error_code_from_byte(spec_error_code_byte(c)) == c,
{
}

/// The wire bytes of the error codes, as the protocol specification fixes
/// them: CRC mismatch 0x01, unknown message type 0x02, invalid payload
/// length 0x03, sensor read failure 0x04, unknown 0xFF; every other byte is
/// read as an unknown error.
pub proof fn lemma_error_code_wire_table(b: u8)
    ensures
        spec_error_code_byte(ErrorCode::CrcMismatch) == 0x01,
        spec_error_code_byte(ErrorCode::UnknownMessageType) == 0x02,
        spec_error_code_byte(ErrorCode::InvalidPayloadLength) == 0x03,
        spec_error_code_byte(ErrorCode::SensorReadFailure) == 0x04,
        spec_error_code_byte(ErrorCode::Unknown) == 0xFF,
        b == 0x01 <==> spec_error_code_from_byte(b) == ErrorCode::CrcMismatch,
        b == 0x02 <==> spec_error_code_from_byte(b) == ErrorCode::UnknownMessageType,
        b == 0x03 <==> spec_error_code_from_byte(b) == ErrorCode::InvalidPayloadLength,
        b == 0x04 <==> spec_error_code_from_byte(b) == ErrorCode::SensorReadFailure,
        (b < 0x01 || b > 0x04) <==> spec_error_code_from_byte(b) == ErrorCode::Unknown,
        spec_payload(Message::Error { code: ErrorCode::CrcMismatch }) == seq![0x01u8],
        spec_payload(Message::Error { code: ErrorCode::UnknownMessageType }) == seq![0x02u8],
        spec_payload(Message::Error { code: ErrorCode::InvalidPayloadLength }) == seq![0x03u8],
        spec_payload(Message::Error { code: ErrorCode::SensorReadFailure }) == seq![0x04u8],
        spec_payload(Message::Error { code: ErrorCode::Unknown }) == seq![0xFFu8],
{
}

/// All message variants in the protocol.
#[derive(Debug, Clone, PartialEq, Eq, Structural)]
pub enum Message {
    /// Control node → AI node: temperature reading, `temp_raw` = °C × 100.
    SensorData { temp_raw: u16 },
    /// AI node → control node: set the fan PWM duty cycle (0 … 255).
    FanCommand { speed: u8 },
    /// AI node → control node: turn the fan off immediately.
    FanOff,
    /// Either direction: keep-alive carrying the sender's uptime in ms.
    Heartbeat { uptime_ms: u32 },
    /// Either direction: acknowledge the message with type byte `acked_type`.
    Ack { acked_type: u8 },
    /// Either direction: signal an error condition.
    Error { code: ErrorCode },
}

/// Wire-level type byte of each message variant.
#[derive(Debug, Clone, Copy, PartialEq, Eq, Structural)]
pub enum MessageTypeId {
    SensorData,
    FanCommand,
    FanOff,
    Heartbeat,
    Ack,
    Error,
}

/// The wire byte of a message type id.
pub open spec fn spec_message_type_byte(t: MessageTypeId) -> u8 {
    match t {
        MessageTypeId::SensorData => 0x01,
        MessageTypeId::FanCommand => 0x02,
        MessageTypeId::FanOff => 0x03,
        MessageTypeId::Heartbeat => 0x10,
        MessageTypeId::Ack => 0x11,
        MessageTypeId::Error => 0xFE,
    }
}

impl MessageTypeId {
    /// The wire byte of this type id.
    pub fn as_byte(&self) -> (b: u8)
        ensures
            b == spec_message_type_byte(*self),
    {
        match self {
            MessageTypeId::SensorData => 0x01,
            MessageTypeId::FanCommand => 0x02,
            MessageTypeId::FanOff => 0x03,
            MessageTypeId::Heartbeat => 0x10,
            MessageTypeId::Ack => 0x11,
            MessageTypeId::Error => 0xFE,
        }
    }
}

/// Errors returned when parsing messages.
#[derive(Debug, Clone, PartialEq, Eq, Structural)]
pub enum MessageError {
    /// The type byte names no message.
    UnknownType(u8),
    /// The payload holds fewer bytes than the message type needs.
    PayloadTooShort { expected: usize, got: usize },
    /// The payload exceeds `MAX_PAYLOAD_LEN`.
    PayloadTooLong(usize),
}

/// The wire type byte of a message.
pub open spec fn spec_type_id(m: Message) -> u8 {
    match m {
        Message::SensorData { .. } => 0x01,
        Message::FanCommand { .. } => 0x02,
        Message::FanOff => 0x03,
        Message::Heartbeat { .. } => 0x10,
        Message::Ack { .. } => 0x11,
        Message::Error { .. } => 0xFE,
    }
}

/// Big-endian bytes of a `u16`.
pub open spec fn be_bytes_u16(v: u16) -> Seq<u8> {
    seq![(v >> 8u16) as u8, (v & 0xffu16) as u8]
}

/// Big-endian bytes of a `u32`.
pub open spec fn be_bytes_u32(v: u32) -> Seq<u8> {
    seq![
        (v >> 24u32) as u8,
        ((v >> 16u32) & 0xffu32) as u8,
        ((v >> 8u32) & 0xffu32) as u8,
        (v & 0xffu32) as u8,
    ]
}

/// The `u16` whose big-endian bytes are `b0, b1`.
pub open spec fn u16_from_be(b0: u8, b1: u8) -> u16 {
    (((b0 as u16) << 8u16) | (b1 as u16)) as u16
}

/// The `u32` whose big-endian bytes are `b0, b1, b2, b3`.
pub open spec fn u32_from_be(b0: u8, b1: u8, b2: u8, b3: u8) -> u32 {
    (((b0 as u32) << 24u32) | ((b1 as u32) << 16u32) | ((b2 as u32) << 8u32) | (b3 as u32)) as u32
}

/// The payload bytes of a message.
pub open spec fn spec_payload(m: Message) -> Seq<u8> {
    match m {
        Message::SensorData { temp_raw } => be_bytes_u16(temp_raw),
        Message::FanCommand { speed } => seq![speed],
        Message::FanOff => Seq::empty(),
        Message::Heartbeat { uptime_ms } => be_bytes_u32(uptime_ms),
        Message::Ack { acked_type } => seq![acked_type],
        Message::Error { code } => seq![spec_error_code_byte(code)],
    }
}

/// The message (or error) that a type byte and a payload stand for.
/// Bytes past the ones a message type needs are ignored.
pub open spec fn spec_decode(type_byte: u8, payload: Seq<u8>) -> Result<Message, MessageError> {
    if type_byte == 0x01 {
        if payload.len() < 2 {
            Err(MessageError::PayloadTooShort { expected: 2, got: payload.len() as usize })
        } else {
            Ok(Message::SensorData { temp_raw: u16_from_be(payload[0], payload[1]) })
        }
    } else if type_byte == 0x02 {
        if payload.len() == 0 {
            Err(MessageError::PayloadTooShort { expected: 1, got: 0 })
        } else {
            Ok(Message::FanCommand { speed: payload[0] })
        }
    } else if type_byte == 0x03 {
        Ok(Message::FanOff)
    } else if type_byte == 0x10 {
        if payload.len() < 4 {
            Err(MessageError::PayloadTooShort { expected: 4, got: payload.len() as usize })
        } else {
            Ok(
                Message::Heartbeat {
                    uptime_ms: u32_from_be(payload[0], payload[1], payload[2], payload[3]),
                },
            )
        }
    } else if type_byte == 0x11 {
        if payload.len() == 0 {
            Err(MessageError::PayloadTooShort { expected: 1, got: 0 })
        } else {
            Ok(Message::Ack { acked_type: payload[0] })
        }
    } else if type_byte == 0xFE {
        if payload.len() == 0 {
            Err(MessageError::PayloadTooShort { expected: 1, got: 0 })
        } else {
            Ok(Message::Error { code: spec_error_code_from_byte(payload[0]) })
        }
    } else {
        Err(MessageError::UnknownType(type_byte))
    }
}

proof fn lemma_u16_be_round_trip(v: u16)
    ensures
        u16_from_be((v >> 8u16) as u8, (v & 0xffu16) as u8) == v,
{
    assert((((((v >> 8u16) as u8) as u16) << 8u16) | (((v & 0xffu16) as u8) as u16)) == v)
        by (bit_vector);
}

proof fn lemma_u32_be_round_trip(v: u32)
    ensures
        u32_from_be(
            (v >> 24u32) as u8,
            ((v >> 16u32) & 0xffu32) as u8,
            ((v >> 8u32) & 0xffu32) as u8,
            (v & 0xffu32) as u8,
        ) == v,
{
    assert(((((v >> 24u32) as u8) as u32) << 24u32 | ((((v >> 16u32) & 0xffu32) as u8) as u32)
        << 16u32 | ((((v >> 8u32) & 0xffu32) as u8) as u32) << 8u32 | (((v & 0xffu32) as u8)
        as u32)) == v) by (bit_vector);
}

/// Every message's payload has at most four bytes, well under the frame limit.
pub proof fn lemma_payload_len_bound(m: Message)
    ensures
        spec_payload(m).len() <= 4,
        spec_payload(m).len() <= MAX_PAYLOAD_LEN,
{
}

/// Decoding a message's own type byte and payload gives the message back.
pub proof fn lemma_message_round_trip(m: Message)
    ensures
        spec_decode(spec_type_id(m), spec_payload(m)) == Ok::<Message, MessageError>(m),
{
    match m {
        Message::SensorData { temp_raw } => {
            lemma_u16_be_round_trip(temp_raw);
        },
        Message::Heartbeat { uptime_ms } => {
            lemma_u32_be_round_trip(uptime_ms);
        },
        Message::Error { code } => {
            lemma_error_code_round_trip(code);
        },
        _ => {},
    }
}

/// Decoding depends only on the bytes a message type needs: extra trailing
/// payload bytes leave the result unchanged.
pub proof fn lemma_decode_ignores_trailing(m: Message, extra: Seq<u8>)
    ensures
        spec_decode(spec_type_id(m), spec_payload(m) + extra) == Ok::<Message, MessageError>(m),
{
    lemma_message_round_trip(m);
    let p = spec_payload(m);
    assert((p + extra).subrange(0, p.len() as int) == p);
    match m {
        Message::SensorData { temp_raw } => {
            assert((p + extra)[0] == p[0] && (p + extra)[1] == p[1]);
        },
        Message::Heartbeat { uptime_ms } => {
            assert((p + extra)[0] == p[0] && (p + extra)[1] == p[1] && (p + extra)[2] == p[2]
                && (p + extra)[3] == p[3]);
        },
        Message::FanCommand { .. } => {
            assert((p + extra)[0] == p[0]);
        },
        Message::Ack { .. } => {
            assert((p + extra)[0] == p[0]);
        },
        Message::Error { .. } => {
            assert((p + extra)[0] == p[0]);
        },
        Message::FanOff => {},
    }
}

impl Message {
    /// Returns the wire-level type byte for this message.
    pub fn type_id(&self) -> (t: u8)
        ensures
            t == spec_type_id(*self),
    {
        match self {
            Message::SensorData { .. } => MessageTypeId::SensorData.as_byte(),
            Message::FanCommand { .. } => MessageTypeId::FanCommand.as_byte(),
            Message::FanOff => MessageTypeId::FanOff.as_byte(),
            Message::Heartbeat { .. } => MessageTypeId::Heartbeat.as_byte(),
            Message::Ack { .. } => MessageTypeId::Ack.as_byte(),
            Message::Error { .. } => MessageTypeId::Error.as_byte(),
        }
    }

    /// Serializes the payload portion of this message (multi-byte integers
    /// big-endian). Messages without payload give an empty vector.
    pub fn encode_payload(&self) -> (p: Vec<u8>)
        ensures
            p@ == spec_payload(*self),
    {
        match self {
            Message::SensorData { temp_raw } => {
                let v = *temp_raw;
                let mut p: Vec<u8> = Vec::new();
                p.push((v >> 8u16) as u8);
                p.push((v & 0xffu16) as u8);
                p
            },
            Message::FanCommand { speed } => {
                let mut p: Vec<u8> = Vec::new();
                p.push(*speed);
                p
            },
            Message::FanOff => Vec::new(),
            Message::Heartbeat { uptime_ms } => {
                let v = *uptime_ms;
                let mut p: Vec<u8> = Vec::new();
                p.push((v >> 24u32) as u8);
                p.push(((v >> 16u32) & 0xffu32) as u8);
                p.push(((v >> 8u32) & 0xffu32) as u8);
                p.push((v & 0xffu32) as u8);
                p
            },
            Message::Ack { acked_type } => {
                let mut p: Vec<u8> = Vec::new();
                p.push(*acked_type);
                p
            },
            Message::Error { code } => {
                let mut p: Vec<u8> = Vec::new();
                p.push(code.as_byte());
                p
            },
        }
    }

    /// Deserializes a message from its type byte and raw payload bytes.
    ///
    /// Returns `Err` exactly when the type byte is unknown or the payload is
    /// shorter than the message type needs.
    pub fn decode(type_byte: u8, payload: &[u8]) -> (r: Result<Message, MessageError>)
        ensures
            r == spec_decode(type_byte, payload@),
    {
        let n = payload.len();
        if type_byte == 0x01 {
            if n < 2 {
                return Err(MessageError::PayloadTooShort { expected: 2, got: n });
            }
            let temp_raw: u16 = ((payload[0] as u16) << 8u16) | (payload[1] as u16);
            Ok(Message::SensorData { temp_raw })
        } else if type_byte == 0x02 {
            if n == 0 {
                return Err(MessageError::PayloadTooShort { expected: 1, got: 0 });
            }
            Ok(Message::FanCommand { speed: payload[0] })
        } else if type_byte == 0x03 {
            Ok(Message::FanOff)
        } else if type_byte == 0x10 {
            if n < 4 {
                return Err(MessageError::PayloadTooShort { expected: 4, got: n });
            }
            let uptime_ms: u32 = ((payload[0] as u32) << 24u32) | ((payload[1] as u32) << 16u32)
                | ((payload[2] as u32) << 8u32) | (payload[3] as u32);
            Ok(Message::Heartbeat { uptime_ms })
        } else if type_byte == 0x11 {
            if n == 0 {
                return Err(MessageError::PayloadTooShort { expected: 1, got: 0 });
            }
            Ok(Message::Ack { acked_type: payload[0] })
        } else if type_byte == 0xFE {
            if n == 0 {
                return Err(MessageError::PayloadTooShort { expected: 1, got: 0 });
            }
            Ok(Message::Error { code: ErrorCode::from(payload[0]) })
        } else {
            Err(MessageError::UnknownType(type_byte))
        }
    }
}

} // verus!
