use kafka_logger::{Level, Record};

fn record(level: &str, target: &str, message: &str) -> Record {
    Record { level: level.to_string(), target: target.to_string(), message: message.to_string() }
}

fn assert_round_trip(level: &str, target: &str, message: &str) {
    let written = record(level, target, message);
    let payload = written.to_json();
    let read = Record::from_json(&payload);
    assert_eq!(read, Some(written));

    let value: serde_json::Value = serde_json::from_str(&payload).unwrap();
    let object = value.as_object().unwrap();
    assert_eq!(object.len(), 3);
    assert_eq!(object.get("level").and_then(|v| v.as_str()), Some(level));
    assert_eq!(object.get("target").and_then(|v| v.as_str()), Some(target));
    assert_eq!(object.get("message").and_then(|v| v.as_str()), Some(message));
}

#[test]
fn new_record_carries_the_level_name() {
    let made = Record::new(Level::Warn, "app.billing", "charge failed");
    assert_eq!(made.level, "WARN");
    assert_eq!(made.target, "app.billing");
    assert_eq!(made.message, "charge failed");
}

#[test]
fn payload_of_a_plain_record() {
    let payload = Record::new(Level::Warn, "app.billing", "charge failed").to_json();
    assert_eq!(payload, r#"{"level":"WARN","target":"app.billing","message":"charge failed"}"#);
}

#[test]
fn payload_of_empty_texts() {
    assert_eq!(record("", "", "").to_json(), r#"{"level":"","target":"","message":""}"#);
}

#[test]
fn payload_escapes_quote_and_backslash() {
    let payload = record("INFO", "a\"b", "c:\\dir \"x\"").to_json();
    assert_eq!(payload, r#"{"level":"INFO","target":"a\"b","message":"c:\\dir \"x\""}"#);
}

#[test]
fn payload_escapes_the_named_control_characters() {
    let payload = record("INFO", "t", "\u{08}\t\n\u{0c}\r").to_json();
    assert_eq!(payload, r#"{"level":"INFO","target":"t","message":"\b\t\n\f\r"}"#);
}

#[test]
fn payload_escapes_every_other_control_character_by_its_code() {
    for code in 0u32..0x20 {
        let c = char::from_u32(code).unwrap();
        let expected = match c {
            '\u{08}' => "\\b".to_string(),
            '\t' => "\\t".to_string(),
            '\n' => "\\n".to_string(),
            '\u{0c}' => "\\f".to_string(),
            '\r' => "\\r".to_string(),
            _ => format!("\\u{:04x}", code),
        };
        let payload = record("INFO", "t", &c.to_string()).to_json();
        assert_eq!(
            payload,
            format!("{{\"level\":\"INFO\",\"target\":\"t\",\"message\":\"{}\"}}", expected)
        );
    }
    assert_eq!(
        record("INFO", "t", "\u{1f}").to_json(),
        r#"{"level":"INFO","target":"t","message":"\u001f"}"#
    );
}

#[test]
fn payload_leaves_every_other_character_alone() {
    for code in 0x20u32..0x80 {
        let c = char::from_u32(code).unwrap();
        if c == '"' || c == '\\' {
            continue;
        }
        let payload = record("INFO", "t", &c.to_string()).to_json();
        assert_eq!(payload, format!("{{\"level\":\"INFO\",\"target\":\"t\",\"message\":\"{}\"}}", c));
    }
    let payload = record("INFO", "t", "/ \u{7f} \u{80} é 日本語 \u{2028} 😀 \u{10ffff}").to_json();
    assert_eq!(
        payload,
        "{\"level\":\"INFO\",\"target\":\"t\",\"message\":\"/ \u{7f} \u{80} é 日本語 \u{2028} 😀 \u{10ffff}\"}"
    );
}

#[test]
fn round_trip_of_plain_texts() {
    assert_round_trip("WARN", "app.billing", "charge failed");
    assert_round_trip("ERROR", "db::pool", "connection refused (os error 111)");
}

#[test]
fn round_trip_of_empty_texts() {
    assert_round_trip("", "", "");
    assert_round_trip("INFO", "", "");
    assert_round_trip("", "t", "");
    assert_round_trip("", "", "m");
}

#[test]
fn round_trip_of_unicode() {
    assert_round_trip("INFO", "größe", "日本語 é 😀 \u{2028}\u{2029} \u{feff} \u{10ffff} \u{e000} \u{d7ff}");
}

#[test]
fn round_trip_of_quotes_backslashes_and_controls() {
    assert_round_trip("INFO", "a\"b\\c", "\\\"\\\\ \"}\",\"message\":\"x\"}");
    assert_round_trip("INFO", "t", "\u{0}\u{1}\u{8}\t\n\u{b}\u{c}\r\u{1f} \u{7f}");
    assert_round_trip("\\u0041", "\\n", "\\");
}

#[test]
fn round_trip_of_every_ascii_character() {
    for code in 0u32..0x80 {
        let c = char::from_u32(code).unwrap();
        assert_round_trip("DEBUG", &format!("a{}b", c), &c.to_string());
    }
}

#[test]
fn from_json_reads_the_wire_form() {
    let read = Record::from_json(r#"{"level":"WARN","target":"app.billing","message":"charge failed"}"#);
    assert_eq!(read, Some(record("WARN", "app.billing", "charge failed")));
}

#[test]
fn from_json_reads_every_escape() {
    let read = Record::from_json(
        r#"{"level":"\u0049NFO","target":"a\/b","message":"\"\\\/\b\f\n\r\t\u00e9\u00E9\u20ac\uABCD\uffff"}"#,
    );
    assert_eq!(
        read,
        Some(record("INFO", "a/b", "\"\\/\u{08}\u{0c}\n\r\té\u{e9}\u{20ac}\u{abcd}\u{ffff}"))
    );
}

#[test]
fn from_json_rejects_surrogate_escapes() {
    assert_eq!(Record::from_json(r#"{"level":"I","target":"t","message":"\ud83d\ude00"}"#), None);
    assert_eq!(Record::from_json(r#"{"level":"I","target":"t","message":"\ud800"}"#), None);
    assert_eq!(Record::from_json(r#"{"level":"I","target":"t","message":"\udfff"}"#), None);
    assert_eq!(
        Record::from_json(r#"{"level":"I","target":"t","message":"\ud7ff\ue000"}"#),
        Some(record("I", "t", "\u{d7ff}\u{e000}"))
    );
}

#[test]
fn from_json_rejects_malformed_literals() {
    assert_eq!(Record::from_json(r#"{"level":"I","target":"t","message":"m}"#), None);
    assert_eq!(Record::from_json(r#"{"level":"I","target":"t","message":"m\"}"#), None);
    assert_eq!(Record::from_json(r#"{"level":"I","target":"t","message":"\x41"}"#), None);
    assert_eq!(Record::from_json(r#"{"level":"I","target":"t","message":"\u12"}"#), None);
    assert_eq!(Record::from_json(r#"{"level":"I","target":"t","message":"\u12g4"}"#), None);
    assert_eq!(Record::from_json(r#"{"level":"I","target":"t","message":"\"#), None);
    assert_eq!(Record::from_json("{\"level\":\"I\",\"target\":\"t\",\"message\":\"a\nb\"}"), None);
    assert_eq!(Record::from_json("{\"level\":\"I\",\"target\":\"t\",\"message\":\"a\u{1f}b\"}"), None);
    assert_eq!(Record::from_json(r#"{"level":I,"target":"t","message":"m"}"#), None);
}

#[test]
fn from_json_rejects_any_other_frame() {
    assert_eq!(Record::from_json(""), None);
    assert_eq!(Record::from_json("{}"), None);
    assert_eq!(Record::from_json(r#"{"level":"I","target":"t"}"#), None);
    assert_eq!(Record::from_json(r#"{"level":"I","target":"t","message":"m"} "#), None);
    assert_eq!(Record::from_json(r#" {"level":"I","target":"t","message":"m"}"#), None);
    assert_eq!(Record::from_json(r#"{"level": "I","target":"t","message":"m"}"#), None);
    assert_eq!(Record::from_json(r#"{"target":"t","level":"I","message":"m"}"#), None);
    assert_eq!(Record::from_json(r#"{"level":"I","target":"t","message":"m","extra":"x"}"#), None);
    assert_eq!(Record::from_json(r#"{"level":"I","target":"t","message":"m"}}"#), None);
    assert_eq!(Record::from_json(r#"{"level":"I","target":"t","message":"m""#), None);
    assert_eq!(Record::from_json(r#"{"Level":"I","target":"t","message":"m"}"#), None);
}

#[test]
fn distinct_records_have_distinct_payloads() {
    let a = record("INFO", "a\",\"message\":\"b", "c").to_json();
    let b = record("INFO", "a", "b\",\"message\":\"c").to_json();
    assert_ne!(a, b);
    assert_ne!(record("INFO", "ab", "c").to_json(), record("INFO", "a", "bc").to_json());
}

#[test]
fn clone_keeps_the_three_texts() {
    let first = record("WARN", "app.billing", "charge \"failed\"\n");
    let second = first.clone();
    assert_eq!(second, first);
    assert_eq!(second.to_json(), first.to_json());
}
