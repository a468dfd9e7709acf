use remotesync::message::{decode, encode, Message, RecordError};
use remotesync::payload::{file_bytes, file_message};

#[test]
fn encodes_each_kind_as_tagged_record() {
    assert_eq!(encode(&Message::Hello { name: "MacB".to_string() }), r#"{"type":"Hello","name":"MacB"}"#);
    assert_eq!(encode(&Message::Clipboard { text: "hello".to_string() }), r#"{"type":"Clipboard","text":"hello"}"#);
    assert_eq!(
        encode(&Message::File { name: "a.txt".to_string(), data: "aGk=".to_string() }),
        r#"{"type":"File","name":"a.txt","data":"aGk="}"#
    );
    assert_eq!(encode(&Message::BringToFront), r#"{"type":"BringToFront"}"#);
}

#[test]
fn escapes_like_serde_json() {
    let samples = ["plain", "quote \" back \\ slash", "line\nfeed\ttab\rret", "\u{8}\u{c}\u{1}\u{1f}\u{7f}", "héllo ✓ 😀", "/slash"];
    for s in samples.iter() {
        let ours = encode(&Message::Clipboard { text: s.to_string() });
        let expected = format!("{{\"type\":\"Clipboard\",\"text\":{}}}", serde_json::to_string(s).unwrap());
        assert_eq!(ours, expected);
    }
}

#[test]
fn records_are_valid_json_that_serde_reads() {
    let rec = encode(&Message::File { name: "n\"ame".to_string(), data: "x\ny".to_string() });
    let v: serde_json::Value = serde_json::from_str(&rec).unwrap();
    assert_eq!(v.get("type").and_then(|t| t.as_str()), Some("File"));
    assert_eq!(v.get("name").and_then(|t| t.as_str()), Some("n\"ame"));
    assert_eq!(v.get("data").and_then(|t| t.as_str()), Some("x\ny"));
}

#[test]
fn decodes_what_it_encodes() {
    let msgs = vec![
        Message::Hello { name: "MacA".to_string() },
        Message::Clipboard { text: "a \"b\" \\ c\n\u{0}\u{1b}é".to_string() },
        Message::Clipboard { text: String::new() },
        Message::File { name: "f.bin".to_string(), data: "AAEC".to_string() },
        Message::BringToFront,
    ];
    for m in msgs {
        assert_eq!(decode(&encode(&m)), Ok(m.clone()));
    }
}

#[test]
fn decodes_other_member_orders_and_escapes() {
    assert_eq!(
        decode(r#"{"text":"hi\/thereA","type":"Clipboard"}"#),
        Ok(Message::Clipboard { text: "hi/thereA".to_string() })
    );
    assert_eq!(decode(r#"{"type":"BringToFront","extra":"x"}"#), Ok(Message::BringToFront));
}

#[test]
fn malformed_records_are_rejected() {
    assert_eq!(decode(""), Err(RecordError::Malformed));
    assert_eq!(decode("not json"), Err(RecordError::Malformed));
    assert_eq!(decode(r#"{"type":"Clipboard","text":"unterminated}"#), Err(RecordError::Malformed));
    assert_eq!(decode(r#"{"type":"Clipboard","text":"x"} "#), Err(RecordError::Malformed));
    assert_eq!(decode(r#"{"type":"Clipboard","text":"bad \q"}"#), Err(RecordError::Malformed));
}

#[test]
fn unknown_kinds_and_missing_fields_are_unrecognized() {
    assert_eq!(decode("{}"), Err(RecordError::Unrecognized));
    assert_eq!(decode(r#"{"type":"Ping"}"#), Err(RecordError::Unrecognized));
    assert_eq!(decode(r#"{"type":"Hello"}"#), Err(RecordError::Unrecognized));
    assert_eq!(decode(r#"{"type":"File","name":"x"}"#), Err(RecordError::Unrecognized));
}

fn round_trip_bytes(bytes: &[u8]) {
    let m = file_message("blob".to_string(), bytes);
    let rec = encode(&m);
    match decode(&rec) {
        Ok(Message::File { name, data }) => {
            assert_eq!(name, "blob");
            assert_eq!(file_bytes(&data).unwrap(), bytes.to_vec());
        }
        other => panic!("unexpected {:?}", other),
    }
}

#[test]
fn file_round_trip_empty() {
    round_trip_bytes(&[]);
}

#[test]
fn file_round_trip_small() {
    round_trip_bytes(&[0, 1, 2, 255, 254, b'"', b'\\']);
}

#[test]
fn file_round_trip_multi_megabyte() {
    let bytes: Vec<u8> = (0..3 * 1024 * 1024 + 7).map(|i: u32| (i * 31 % 256) as u8).collect();
    round_trip_bytes(&bytes);
}

#[test]
fn file_payload_is_standard_base64() {
    match file_message("x".to_string(), b"hello world~") {
        Message::File { data, .. } => assert_eq!(data, "aGVsbG8gd29ybGR+"),
        other => panic!("unexpected {:?}", other),
    }
    assert_eq!(file_bytes("aGk=").unwrap(), b"hi".to_vec());
}

#[test]
fn empty_payload_is_empty_text() {
    match file_message("e".to_string(), &[]) {
        Message::File { data, .. } => assert_eq!(data, ""),
        other => panic!("unexpected {:?}", other),
    }
    assert_eq!(file_bytes("").unwrap(), Vec::<u8>::new());
    match file_message("x".to_string(), b"foob") {
        Message::File { data, .. } => assert_eq!(data, "Zm9vYg=="),
        other => panic!("unexpected {:?}", other),
    }
}

#[test]
fn invalid_payload_is_a_decode_failure() {
    assert!(matches!(file_bytes("!!notbase64"), Err(remotesync::error::SyncError::DecodeFailure { .. })));
}
