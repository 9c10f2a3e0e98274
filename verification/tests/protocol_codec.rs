use ctrl_eqip::protocol::codec::{crc8, encode, Codec, CodecError, DecodeResult};
use ctrl_eqip::protocol::messages::{ErrorCode, Message, MessageError};

fn encode_decode(msg: Message) -> Message {
    let frame = encode(&msg).expect("encode failed");
    let mut codec = Codec::new();
    codec.feed(&frame);
    match codec.decode_one().expect("should have a result") {
        DecodeResult::Complete { message, .. } => message,
        other => panic!("expected Complete, got {:?}", other),
    }
}

#[test]
fn sensor_data_encode_decode() {
    let msg = Message::SensorData { temp_raw: 2573 };
    assert_eq!(encode_decode(msg.clone()), msg);
}

#[test]
fn fan_command_encode_decode() {
    let msg = Message::FanCommand { speed: 200 };
    assert_eq!(encode_decode(msg.clone()), msg);
}

#[test]
fn fan_off_encode_decode() {
    let msg = Message::FanOff;
    assert_eq!(encode_decode(msg.clone()), msg);
}

#[test]
fn heartbeat_encode_decode() {
    let msg = Message::Heartbeat { uptime_ms: 60_000 };
    assert_eq!(encode_decode(msg.clone()), msg);
}

#[test]
fn ack_encode_decode() {
    let msg = Message::Ack { acked_type: 0x01 };
    assert_eq!(encode_decode(msg.clone()), msg);
}

#[test]
fn crc_corruption_detected() {
    let msg = Message::SensorData { temp_raw: 1234 };
    let mut frame = encode(&msg).unwrap();

    // Corrupt the CRC byte (second-to-last byte)
    let crc_pos = frame.len() - 2;
    frame[crc_pos] ^= 0xFF;

    let mut codec = Codec::new();
    codec.feed(&frame);
    match codec.decode_one().unwrap() {
        DecodeResult::Error { error: CodecError::CrcMismatch { .. }, .. } => {} // expected
        other => panic!("expected CRC error, got {:?}", other),
    }
}

#[test]
fn partial_frame_returns_incomplete() {
    let msg = Message::Heartbeat { uptime_ms: 99 };
    let frame = encode(&msg).unwrap();

    // Feed only half the frame
    let mut codec = Codec::new();
    codec.feed(&frame[..frame.len() / 2]);
    assert!(matches!(codec.decode_one(), Some(DecodeResult::Incomplete)));

    // Feed the rest
    codec.feed(&frame[frame.len() / 2..]);
    assert!(matches!(codec.decode_one(), Some(DecodeResult::Complete { .. })));
}

#[test]
fn back_to_back_frames() {
    let msg1 = Message::FanCommand { speed: 100 };
    let msg2 = Message::FanOff;
    let mut combined = encode(&msg1).unwrap();
    combined.extend(encode(&msg2).unwrap());

    let mut codec = Codec::new();
    codec.feed(&combined);

    let r1 = codec.decode_one().unwrap();
    assert!(matches!(r1, DecodeResult::Complete { message: Message::FanCommand { speed: 100 }, .. }));

    let r2 = codec.decode_one().unwrap();
    assert!(matches!(r2, DecodeResult::Complete { message: Message::FanOff, .. }));

    assert!(codec.decode_one().is_none());
}

#[test]
fn garbage_before_frame_skipped() {
    let msg = Message::FanOff;
    let frame = encode(&msg).unwrap();

    let mut data = vec![0x00, 0xFF, 0x13]; // garbage prefix
    data.extend_from_slice(&frame);

    let mut codec = Codec::new();
    codec.feed(&data);
    match codec.decode_one().unwrap() {
        DecodeResult::Complete { message, .. } => assert_eq!(message, Message::FanOff),
        other => panic!("expected Complete, got {:?}", other),
    }
}

#[test]
fn crc8_smbus_check_value() {
    assert_eq!(crc8(b"123456789"), 0xF4);
    assert_eq!(crc8(&[]), 0x00);
    assert_eq!(crc8(&[0x03, 0x00]), 0x3F);
}

#[test]
fn encode_exact_frames() {
    assert_eq!(encode(&Message::FanOff).unwrap(), vec![0xAA, 0x03, 0x00, 0x3F, 0x55]);
    assert_eq!(
        encode(&Message::SensorData { temp_raw: 2573 }).unwrap(),
        vec![0xAA, 0x01, 0x02, 0x0A, 0x0D, 0x61, 0x55]
    );
    assert_eq!(
        encode(&Message::Heartbeat { uptime_ms: 60_000 }).unwrap(),
        vec![0xAA, 0x10, 0x04, 0x00, 0x00, 0xEA, 0x60, 0xF7, 0x55]
    );
    assert_eq!(
        encode(&Message::FanCommand { speed: 128 }).unwrap(),
        vec![0xAA, 0x02, 0x01, 0x80, 0x4A, 0x55]
    );
}

#[test]
fn complete_reports_bytes_consumed() {
    let frame = encode(&Message::SensorData { temp_raw: 7 }).unwrap();
    let mut codec = Codec::new();
    codec.feed(&frame);
    codec.feed(&[0xAA]);
    match codec.decode_one().unwrap() {
        DecodeResult::Complete { bytes_consumed, .. } => assert_eq!(bytes_consumed, 7),
        other => panic!("expected Complete, got {:?}", other),
    }
    assert_eq!(codec.buffered_len(), 1);
    assert!(matches!(codec.decode_one(), Some(DecodeResult::Incomplete)));
    assert_eq!(codec.buffered_len(), 1);
}

#[test]
fn no_start_byte_clears_buffer() {
    let mut codec = Codec::new();
    codec.feed(&[0x01, 0x02, 0x03]);
    match codec.decode_one().unwrap() {
        DecodeResult::Error { error: CodecError::NoStartByte, skip } => assert_eq!(skip, 0),
        other => panic!("expected NoStartByte, got {:?}", other),
    }
    assert_eq!(codec.buffered_len(), 0);
    assert!(codec.decode_one().is_none());
}

#[test]
fn missing_end_byte_skips_one() {
    let mut frame = encode(&Message::FanOff).unwrap();
    let last = frame.len() - 1;
    frame[last] = 0x00;
    let mut codec = Codec::new();
    codec.feed(&frame);
    match codec.decode_one().unwrap() {
        DecodeResult::Error { error: CodecError::MissingEndByte, skip } => assert_eq!(skip, 1),
        other => panic!("expected MissingEndByte, got {:?}", other),
    }
    assert_eq!(codec.buffered_len(), frame.len() - 1);
}

#[test]
fn crc_mismatch_reports_values() {
    let mut codec = Codec::new();
    codec.feed(&[0xAA, 0x03, 0x00, 0x00, 0x55]);
    match codec.decode_one().unwrap() {
        DecodeResult::Error { error: CodecError::CrcMismatch { expected, got }, skip } => {
            assert_eq!(expected, 0x3F);
            assert_eq!(got, 0x00);
            assert_eq!(skip, 1);
        }
        other => panic!("expected CrcMismatch, got {:?}", other),
    }
    // only the bad frame's START byte was discarded
    assert_eq!(codec.buffered_len(), 4);
}

#[test]
fn frame_inside_bad_frame_is_recovered() {
    // A spurious START followed by a length byte that swallows a real frame.
    let real = encode(&Message::FanOff).unwrap();
    let mut data = vec![0xAA, 0x11, real.len() as u8];
    data.extend_from_slice(&real);
    data.extend_from_slice(&[0x00, 0x55]);
    let mut codec = Codec::new();
    codec.feed(&data);
    assert!(matches!(
        codec.decode_one(),
        Some(DecodeResult::Error { error: CodecError::CrcMismatch { .. }, skip: 1 })
    ));
    assert_eq!(codec.poll_message(), Some(Message::FanOff));
}

#[test]
fn unknown_type_in_valid_frame() {
    let mut codec = Codec::new();
    codec.feed(&[0xAA, 0x99, 0x00, 0x5C, 0x55]);
    match codec.decode_one().unwrap() {
        DecodeResult::Error { error: CodecError::MessageError(MessageError::UnknownType(0x99)), skip } => {
            assert_eq!(skip, 5)
        }
        other => panic!("expected MessageError, got {:?}", other),
    }
}

#[test]
fn reset_and_buffered_len() {
    let mut codec = Codec::default();
    assert_eq!(codec.buffered_len(), 0);
    codec.feed(&[1, 2, 3]);
    codec.feed(&[4]);
    assert_eq!(codec.buffered_len(), 4);
    codec.reset();
    assert_eq!(codec.buffered_len(), 0);
    assert!(codec.decode_one().is_none());
}

#[test]
fn poll_message_skips_bad_frames() {
    let mut bad = encode(&Message::Ack { acked_type: 3 }).unwrap();
    let crc_pos = bad.len() - 2;
    bad[crc_pos] ^= 0x01;
    let mut codec = Codec::new();
    codec.feed(&[0x00, 0x11]);
    codec.feed(&bad);
    codec.feed(&encode(&Message::Error { code: ErrorCode::SensorReadFailure }).unwrap());
    codec.feed(&encode(&Message::FanOff).unwrap()[..3]);
    assert_eq!(codec.poll_message(), Some(Message::Error { code: ErrorCode::SensorReadFailure }));
    assert_eq!(codec.poll_message(), None);
    assert_eq!(codec.buffered_len(), 3);
    codec.feed(&[0x3F, 0x55]);
    assert_eq!(codec.poll_message(), Some(Message::FanOff));
    assert_eq!(codec.poll_message(), None);
}
