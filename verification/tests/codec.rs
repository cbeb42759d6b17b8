use zap_wasm::codes::MessageType;
use zap_wasm::protocol::{decode_binary, decode_text, envelope_text, DecodeError, Protocol, WireMessage};
use zap_wasm::wire::{frame_bytes, unframe, FrameError};

fn json(text: &str) -> serde_json::Value {
    serde_json::from_str(text).unwrap()
}

fn binary(w: WireMessage) -> Vec<u8> {
    match w {
        WireMessage::Binary(b) => b,
        WireMessage::Text(t) => panic!("expected a binary frame, got text {t}"),
    }
}

fn text(w: WireMessage) -> String {
    match w {
        WireMessage::Text(t) => t,
        WireMessage::Binary(b) => panic!("expected text, got bytes {b:?}"),
    }
}

#[test]
fn test_protocol_encode_decode_binary() {
    let protocol = Protocol::new(Some(true));
    let encoded = protocol.encode(MessageType::Request.code(), Some("{\"test\":\"value\"}"));
    let decoded = protocol.decode(&encoded).unwrap();
    assert_eq!(decoded.msg_type, Some(MessageType::Request.code()));
    assert_eq!(decoded.payload, Some(json("{\"test\":\"value\"}")));
}

#[test]
fn test_protocol_encode_decode_json() {
    let protocol = Protocol::new(Some(false));
    let encoded = protocol.encode(MessageType::Ping.code(), Some("{\"hello\":\"world\"}"));
    assert!(matches!(encoded, WireMessage::Text(_)));
    let decoded = protocol.decode(&encoded).unwrap();
    assert_eq!(decoded.msg_type, Some(MessageType::Ping.code()));
    assert_eq!(decoded.payload, Some(json("{\"hello\":\"world\"}")));
}

#[test]
fn binary_frame_bytes_are_magic_type_payload() {
    let protocol = Protocol::new(None);
    assert!(protocol.binary());
    let bytes = binary(protocol.encode(3, Some("{\"a\":1}")));
    let mut expected = vec![0x5A, 0x41, 0x50, 0x01, 3];
    expected.extend_from_slice(b"{\"a\":1}");
    assert_eq!(bytes, expected);
}

#[test]
fn binary_frame_of_missing_payload_is_header_only() {
    let bytes = binary(Protocol::new(Some(true)).encode(7, None));
    assert_eq!(bytes, vec![0x5A, 0x41, 0x50, 0x01, 7]);
    // An empty payload is not JSON.
    assert!(matches!(decode_binary(&bytes), Err(DecodeError::InvalidJson(_))));
}

#[test]
fn binary_frame_keeps_non_ascii_payload() {
    let protocol = Protocol::new(Some(true));
    let bytes = binary(protocol.encode(5, Some("\"h\u{e9}llo \u{1F600}\"")));
    assert_eq!(&bytes[5..], "\"h\u{e9}llo \u{1F600}\"".as_bytes());
    let decoded = protocol.decode(&WireMessage::Binary(bytes)).unwrap();
    assert_eq!(decoded.msg_type, Some(5));
    assert_eq!(decoded.payload, Some(serde_json::Value::String("h\u{e9}llo \u{1F600}".to_string())));
}

#[test]
fn text_envelope_is_exact() {
    let protocol = Protocol::new(Some(false));
    assert!(!protocol.binary());
    assert_eq!(text(protocol.encode(3, Some("{\"x\":1}"))), "{\"t\":3,\"d\":{\"x\":1}}");
    assert_eq!(text(protocol.encode(255, None)), "{\"t\":255}");
    assert_eq!(envelope_text(0, Some("null")), "{\"t\":0,\"d\":null}");
}

#[test]
fn decode_rejects_short_messages() {
    let err = decode_binary(&[0x5A, 0x41, 0x50, 0x01]).unwrap_err();
    assert!(matches!(err, DecodeError::TooShort));
    assert_eq!(err.message(), "Message too short");
    assert!(matches!(decode_binary(&[]), Err(DecodeError::TooShort)));
}

#[test]
fn decode_rejects_bad_magic() {
    let err = decode_binary(&[0x5A, 0x41, 0x50, 0x02, 3, b'1']).unwrap_err();
    assert!(matches!(err, DecodeError::BadMagic));
    assert_eq!(err.message(), "Invalid ZAP magic");
}

#[test]
fn decode_rejects_invalid_utf8() {
    let err = decode_binary(&[0x5A, 0x41, 0x50, 0x01, 3, 0xFF]).unwrap_err();
    match &err {
        DecodeError::InvalidUtf8(m) => assert_eq!(err.message(), *m),
        other => panic!("unexpected {other:?}"),
    }
    assert!(err.message().contains("utf-8"));
}

#[test]
fn decode_rejects_invalid_json() {
    let err = decode_binary(&[0x5A, 0x41, 0x50, 0x01, 3, b'{']).unwrap_err();
    assert!(matches!(err, DecodeError::InvalidJson(_)));
    assert!(matches!(decode_text("not json"), Err(DecodeError::InvalidJson(_))));
}

#[test]
fn decode_text_reads_type_and_payload() {
    let d = decode_text("{\"t\":4,\"d\":{\"id\":\"1\"}}").unwrap();
    assert_eq!(d.msg_type, Some(4));
    assert_eq!(d.payload, Some(json("{\"id\":\"1\"}")));
    // The type is the low byte of the number.
    assert_eq!(decode_text("{\"t\":259}").unwrap().msg_type, Some(3));
    // Without a type or payload member, both are absent.
    let bare = decode_text("123").unwrap();
    assert_eq!(bare.msg_type, None);
    assert_eq!(bare.payload, None);
    // A type that is not a non-negative integer is absent.
    assert_eq!(decode_text("{\"t\":-1,\"d\":0}").unwrap().msg_type, None);
    assert_eq!(decode_text("{\"t\":\"4\"}").unwrap().msg_type, None);
}

#[test]
fn text_messages_decode_whatever_the_mode() {
    let binary_codec = Protocol::new(Some(true));
    let d = binary_codec.decode(&WireMessage::Text("{\"t\":2,\"d\":true}".to_string())).unwrap();
    assert_eq!(d.msg_type, Some(2));
    assert_eq!(d.payload, Some(serde_json::Value::Bool(true)));
}

#[test]
fn ping_and_pong_carry_the_stamp() {
    let protocol = Protocol::new(Some(false));
    assert_eq!(text(protocol.encode_ping("1700000000000")), "{\"t\":6,\"d\":{\"ts\":1700000000000}}");
    assert_eq!(text(protocol.encode_pong("12.5")), "{\"t\":7,\"d\":{\"ts\":12.5}}");
    let bin = Protocol::new(Some(true));
    let mut expected = vec![0x5A, 0x41, 0x50, 0x01, 6];
    expected.extend_from_slice(b"{\"ts\":1}");
    assert_eq!(binary(bin.encode_ping("1")), expected);
}

#[test]
fn typed_encoders_use_their_codes() {
    let protocol = Protocol::new(Some(false));
    assert_eq!(text(protocol.encode_handshake(Some("{}"))), "{\"t\":1,\"d\":{}}");
    assert_eq!(text(protocol.encode_request(Some("{}"))), "{\"t\":3,\"d\":{}}");
    assert_eq!(text(protocol.encode_response(None)), "{\"t\":4}");
}

#[test]
fn frame_and_unframe_round_trip() {
    let f = frame_bytes(9, &[1, 2, 3]);
    assert_eq!(f, vec![0x5A, 0x41, 0x50, 0x01, 9, 1, 2, 3]);
    assert_eq!(unframe(&f), Ok((9, vec![1, 2, 3])));
    assert_eq!(unframe(&f[..5]), Ok((9, vec![])));
    assert_eq!(unframe(&f[..4]), Err(FrameError::TooShort));
    assert_eq!(unframe(&[0, 0, 0, 0, 0]), Err(FrameError::BadMagic));
}

#[test]
fn round_trip_in_both_modes_for_every_type() {
    let payloads = ["{\"a\":[1,2,{\"b\":null}]}", "\"s\"", "18446744073709551615", "-1.5", "[]"];
    for encoder_binary in [true, false] {
        let encoder = Protocol::new(Some(encoder_binary));
        for decoder_binary in [true, false] {
            let decoder = Protocol::new(Some(decoder_binary));
            for t in 0..=255u8 {
                for p in payloads {
                    let d = decoder.decode(&encoder.encode(t, Some(p))).unwrap();
                    assert_eq!(d.msg_type, Some(t));
                    assert_eq!(d.payload, Some(json(p)));
                }
            }
        }
    }
}

#[test]
fn text_envelope_without_payload_decodes_without_payload() {
    let protocol = Protocol::new(Some(false));
    let d = protocol.decode(&protocol.encode(9, None)).unwrap();
    assert_eq!(d.msg_type, Some(9));
    assert_eq!(d.payload, None);
    let empty = decode_text("{}").unwrap();
    assert_eq!((empty.msg_type, empty.payload), (None, None));
}

#[test]
fn error_messages_are_the_decoders_own() {
    let utf8 = String::from_utf8(vec![0xFF]).unwrap_err().to_string();
    match decode_binary(&[0x5A, 0x41, 0x50, 0x01, 3, 0xFF]) {
        Err(DecodeError::InvalidUtf8(m)) => assert_eq!(m, utf8),
        other => panic!("unexpected {other:?}"),
    }
    let json_err = serde_json::from_str::<serde_json::Value>("{").unwrap_err().to_string();
    match decode_binary(&[0x5A, 0x41, 0x50, 0x01, 3, b'{']) {
        Err(DecodeError::InvalidJson(m)) => assert_eq!(m, json_err),
        other => panic!("unexpected {other:?}"),
    }
    match decode_text("{") {
        Err(e) => assert_eq!(e.message(), json_err),
        Ok(_) => panic!("must fail"),
    }
}
