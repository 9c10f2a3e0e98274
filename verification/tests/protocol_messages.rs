use ctrl_eqip::protocol::messages::{ErrorCode, Message, MessageError, MessageTypeId};

#[test]
fn sensor_data_round_trip() {
    let msg = Message::SensorData { temp_raw: 2573 }; // 25.73°C
    let payload = msg.encode_payload();
    let decoded = Message::decode(msg.type_id(), &payload).unwrap();
    assert_eq!(msg, decoded);
}

#[test]
fn fan_command_round_trip() {
    let msg = Message::FanCommand { speed: 200 };
    let payload = msg.encode_payload();
    let decoded = Message::decode(msg.type_id(), &payload).unwrap();
    assert_eq!(msg, decoded);
}

#[test]
fn fan_off_round_trip() {
    let msg = Message::FanOff;
    let payload = msg.encode_payload();
    let decoded = Message::decode(msg.type_id(), &payload).unwrap();
    assert_eq!(msg, decoded);
}

#[test]
fn heartbeat_round_trip() {
    let msg = Message::Heartbeat { uptime_ms: 123_456_789 };
    let payload = msg.encode_payload();
    let decoded = Message::decode(msg.type_id(), &payload).unwrap();
    assert_eq!(msg, decoded);
}

#[test]
fn ack_round_trip() {
    let msg = Message::Ack { acked_type: 0x01 };
    let payload = msg.encode_payload();
    let decoded = Message::decode(msg.type_id(), &payload).unwrap();
    assert_eq!(msg, decoded);
}

#[test]
fn error_round_trip() {
    let msg = Message::Error { code: ErrorCode::CrcMismatch };
    let payload = msg.encode_payload();
    let decoded = Message::decode(msg.type_id(), &payload).unwrap();
    assert_eq!(msg, decoded);
}

#[test]
fn unknown_type_returns_error() {
    let result = Message::decode(0x99, &[]);
    assert!(matches!(result, Err(MessageError::UnknownType(0x99))));
}

#[test]
fn short_payload_returns_error() {
    // SensorData needs 2 bytes
    let result = Message::decode(0x01, &[0x10]);
    assert!(matches!(result, Err(MessageError::PayloadTooShort { .. })));
}

#[test]
fn payload_bytes_are_big_endian() {
    assert_eq!(Message::SensorData { temp_raw: 2573 }.encode_payload(), vec![0x0A, 0x0D]);
    assert_eq!(
        Message::Heartbeat { uptime_ms: 0x0102_0304 }.encode_payload(),
        vec![0x01, 0x02, 0x03, 0x04]
    );
    assert_eq!(Message::FanOff.encode_payload(), Vec::<u8>::new());
    assert_eq!(Message::Error { code: ErrorCode::Unknown }.encode_payload(), vec![0xFF]);
    assert_eq!(
        Message::decode(0x10, &[0x00, 0x00, 0x01, 0x00]),
        Ok(Message::Heartbeat { uptime_ms: 256 })
    );
}

#[test]
fn type_ids() {
    assert_eq!(Message::SensorData { temp_raw: 0 }.type_id(), 0x01);
    assert_eq!(Message::FanCommand { speed: 0 }.type_id(), 0x02);
    assert_eq!(Message::FanOff.type_id(), 0x03);
    assert_eq!(Message::Heartbeat { uptime_ms: 0 }.type_id(), 0x10);
    assert_eq!(Message::Ack { acked_type: 0 }.type_id(), 0x11);
    assert_eq!(Message::Error { code: ErrorCode::Unknown }.type_id(), 0xFE);
    assert_eq!(MessageTypeId::Error.as_byte(), 0xFE);
}

#[test]
fn short_payload_errors_report_lengths() {
    assert_eq!(
        Message::decode(0x01, &[0x10]),
        Err(MessageError::PayloadTooShort { expected: 2, got: 1 })
    );
    assert_eq!(
        Message::decode(0x10, &[1, 2, 3]),
        Err(MessageError::PayloadTooShort { expected: 4, got: 3 })
    );
    assert_eq!(Message::decode(0x02, &[]), Err(MessageError::PayloadTooShort { expected: 1, got: 0 }));
    assert_eq!(Message::decode(0x11, &[]), Err(MessageError::PayloadTooShort { expected: 1, got: 0 }));
    assert_eq!(Message::decode(0xFE, &[]), Err(MessageError::PayloadTooShort { expected: 1, got: 0 }));
    assert_eq!(Message::decode(0x03, &[9, 9]), Ok(Message::FanOff));
}

#[test]
fn error_codes_from_bytes() {
    assert_eq!(ErrorCode::from(0x01), ErrorCode::CrcMismatch);
    assert_eq!(ErrorCode::from(0x02), ErrorCode::UnknownMessageType);
    assert_eq!(ErrorCode::from(0x03), ErrorCode::InvalidPayloadLength);
    assert_eq!(ErrorCode::from(0x04), ErrorCode::SensorReadFailure);
    assert_eq!(ErrorCode::from(0x42), ErrorCode::Unknown);
    assert_eq!(ErrorCode::SensorReadFailure.as_byte(), 0x04);
    assert_eq!(ErrorCode::from(ErrorCode::InvalidPayloadLength.as_byte()), ErrorCode::InvalidPayloadLength);
}
