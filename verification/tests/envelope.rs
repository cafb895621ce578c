use remote_rpc_rs::{encode_signal_payload, parse_signal_payload, SignalPayload, SignalType};

fn payload(from: &str, body: &str, ty: SignalType) -> SignalPayload {
    SignalPayload { from_id: from.to_string(), payload: body.to_string(), signal_type: ty }
}

#[test]
fn encode_produces_canonical_json() {
    let msg = payload("p1", "v=0", SignalType::Offer);
    assert_eq!(
        encode_signal_payload(&msg),
        "{\"from_id\":\"p1\",\"payload\":\"v=0\",\"signal_type\":\"Offer\"}"
    );
}

#[test]
fn encode_escapes_specials() {
    let msg = payload("a\"b", "line1\r\nline2\\end\u{1}", SignalType::Answer);
    assert_eq!(
        encode_signal_payload(&msg),
        "{\"from_id\":\"a\\\"b\",\"payload\":\"line1\\r\\nline2\\\\end\\u0001\",\"signal_type\":\"Answer\"}"
    );
}

#[test]
fn parse_inverts_encode() {
    let cases = [
        payload("p1", "v=0\r\no=- 46117 2 IN IP4 127.0.0.1", SignalType::Offer),
        payload("c1", "answer sdp", SignalType::Answer),
        payload("p1", "candidate:1 1 UDP 2122252543 192.0.2.1 54321 typ host", SignalType::Candidate),
        payload("", "", SignalType::Offer),
        payload("quote\"back\\slash", "tab\tbell\u{7}form\u{c}", SignalType::Candidate),
        payload("unicode-\u{263a}-id", "payload \u{4e16}\u{754c}", SignalType::Answer),
    ];
    for msg in cases {
        let text = encode_signal_payload(&msg);
        let back = parse_signal_payload(&text).expect("canonical text must parse");
        assert_eq!(back.from_id, msg.from_id);
        assert_eq!(back.payload, msg.payload);
        assert_eq!(back.signal_type, msg.signal_type);
    }
}

#[test]
fn parse_rejects_malformed_text() {
    assert!(parse_signal_payload("").is_none());
    assert!(parse_signal_payload("{}").is_none());
    assert!(parse_signal_payload("not json at all").is_none());
    // Missing a field.
    assert!(parse_signal_payload("{\"from_id\":\"a\",\"signal_type\":\"Offer\"}").is_none());
    // Fields out of order.
    assert!(parse_signal_payload(
        "{\"payload\":\"x\",\"from_id\":\"a\",\"signal_type\":\"Offer\"}"
    )
    .is_none());
    // Whitespace is not canonical.
    assert!(parse_signal_payload(
        "{ \"from_id\":\"a\",\"payload\":\"x\",\"signal_type\":\"Offer\" }"
    )
    .is_none());
    // Unknown signal type token.
    assert!(parse_signal_payload(
        "{\"from_id\":\"a\",\"payload\":\"x\",\"signal_type\":\"offer\"}"
    )
    .is_none());
    // Trailing garbage.
    assert!(parse_signal_payload(
        "{\"from_id\":\"a\",\"payload\":\"x\",\"signal_type\":\"Offer\"}x"
    )
    .is_none());
    // Unterminated string.
    assert!(parse_signal_payload("{\"from_id\":\"a").is_none());
    // Invalid escape.
    assert!(parse_signal_payload(
        "{\"from_id\":\"\\q\",\"payload\":\"x\",\"signal_type\":\"Offer\"}"
    )
    .is_none());
    // A bare control character inside a string.
    assert!(parse_signal_payload(
        "{\"from_id\":\"a\u{1}\",\"payload\":\"x\",\"signal_type\":\"Offer\"}"
    )
    .is_none());
}

#[test]
fn encode_agrees_with_generic_json_writer() {
    let msg = payload("a\"b\\c", "line\r\n\ttext \u{1b} end", SignalType::Candidate);
    let mut obj = serde_json::Map::new();
    obj.insert("from_id".to_string(), serde_json::Value::String(msg.from_id.clone()));
    obj.insert("payload".to_string(), serde_json::Value::String(msg.payload.clone()));
    obj.insert("signal_type".to_string(), serde_json::Value::String("Candidate".to_string()));
    let reference = serde_json::Value::Object(obj).to_string();
    assert_eq!(encode_signal_payload(&msg), reference);
}

#[test]
fn generic_json_reader_accepts_encoding() {
    let msg = payload("p1", "sdp with \"quotes\" and \\slashes\\", SignalType::Offer);
    let text = encode_signal_payload(&msg);
    let value: serde_json::Value = serde_json::from_str(&text).expect("well-formed JSON");
    assert_eq!(value.get("from_id").and_then(|v| v.as_str()), Some(msg.from_id.as_str()));
    assert_eq!(value.get("payload").and_then(|v| v.as_str()), Some(msg.payload.as_str()));
    assert_eq!(value.get("signal_type").and_then(|v| v.as_str()), Some("Offer"));
}

#[test]
fn every_control_character_survives_the_round_trip() {
    let mut body = String::new();
    for v in 0u8..0x20 {
        body.push(v as char);
    }
    let msg = payload("ctl", &body, SignalType::Offer);
    let text = encode_signal_payload(&msg);
    let back = parse_signal_payload(&text).expect("canonical text must parse");
    assert_eq!(back.payload, msg.payload);

    let mut obj = serde_json::Map::new();
    obj.insert("from_id".to_string(), serde_json::Value::String(msg.from_id.clone()));
    obj.insert("payload".to_string(), serde_json::Value::String(msg.payload.clone()));
    obj.insert("signal_type".to_string(), serde_json::Value::String("Offer".to_string()));
    assert_eq!(text, serde_json::Value::Object(obj).to_string());
}
