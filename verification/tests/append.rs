use piper::encode::encode_record;
use piper::encode::frame_record;
use piper::encode::say_message;
use piper::record::Message;

fn record(room: &str, user_id: &str, message: &str, timestamp: &str) -> Message {
    Message {
        room: room.to_string(),
        user_id: user_id.to_string(),
        message: message.to_string(),
        timestamp: timestamp.to_string(),
    }
}

#[test]
fn frame_record_puts_the_fields_in_stored_order() {
    let line = frame_record("1", "22", "333", "4444");
    assert_eq!(
        line,
        "{\"room\":1,\"user_id\":22,\"message\":333,\"timestamp\":4444}\n"
    );
}

#[test]
fn frame_record_accepts_empty_values() {
    let line = frame_record("", "", "", "");
    assert_eq!(line, "{\"room\":,\"user_id\":,\"message\":,\"timestamp\":}\n");
}

#[test]
fn encode_record_writes_one_json_object_and_a_line_feed() {
    let line = encode_record(&record("lobby", "ann", "hi", "2024-01-02T03:04:05+00:00")).unwrap();
    assert_eq!(
        line,
        "{\"room\":\"lobby\",\"user_id\":\"ann\",\"message\":\"hi\",\"timestamp\":\"2024-01-02T03:04:05+00:00\"}\n"
    );
}

#[test]
fn encode_record_escapes_what_json_requires() {
    let line = encode_record(&record("r", "u", "say \"hi\"\\\n\t\u{1}\u{e9}", "t")).unwrap();
    let expected = "{\"room\":\"r\",\"user_id\":\"u\",\"message\":\"say \\\"hi\\\"\\\\\\n\\t\\u0001\u{e9}\",\"timestamp\":\"t\"}\n";
    assert_eq!(line, expected);
}

#[test]
fn encode_record_keeps_a_message_with_line_breaks_on_one_line() {
    let line = encode_record(&record("r", "u", "first\nsecond\r\nthird", "t")).unwrap();
    assert!(line.ends_with('\n'));
    assert_eq!(line.matches('\n').count(), 1);
    let feeds = line.as_bytes().iter().filter(|byte| **byte == b'\n').count();
    assert_eq!(feeds, 1);
}

#[test]
fn encode_record_keeps_characters_beyond_ascii() {
    let line = encode_record(&record("caf\u{e9}", "\u{1f600}", "\u{0}\u{7f}\u{80}\u{ffff}", "t")).unwrap();
    assert_eq!(
        line,
        "{\"room\":\"caf\u{e9}\",\"user_id\":\"\u{1f600}\",\"message\":\"\\u0000\u{7f}\u{80}\u{ffff}\",\"timestamp\":\"t\"}\n"
    );
    let feeds = line.as_bytes().iter().filter(|byte| **byte == b'\n').count();
    assert_eq!(feeds, 1);
}

#[test]
fn encode_record_accepts_empty_fields() {
    let line = encode_record(&record("", "", "", "")).unwrap();
    assert_eq!(
        line,
        "{\"room\":\"\",\"user_id\":\"\",\"message\":\"\",\"timestamp\":\"\"}\n"
    );
}

#[test]
fn encode_record_is_read_by_serde_json_as_the_same_fields() {
    let written = record("caf\u{e9}", "u\\1", "a \"b\" c\n", "2024-01-02T03:04:05.678+00:00");
    let line = encode_record(&written).unwrap();
    let value: serde_json::Value = serde_json::from_str(line.trim_end_matches('\n')).unwrap();
    let object = value.as_object().unwrap();
    assert_eq!(object.len(), 4);
    assert_eq!(object.get("room").unwrap().as_str(), Some("caf\u{e9}"));
    assert_eq!(object.get("user_id").unwrap().as_str(), Some("u\\1"));
    assert_eq!(object.get("message").unwrap().as_str(), Some("a \"b\" c\n"));
    assert_eq!(
        object.get("timestamp").unwrap().as_str(),
        Some("2024-01-02T03:04:05.678+00:00")
    );
}

#[test]
fn say_message_takes_the_texts_as_they_are() {
    let composed = say_message("  hello  ", "lobby", "ann").unwrap();
    assert_eq!(composed.record.message, "  hello  ");
    assert_eq!(composed.record.room, "lobby");
    assert_eq!(composed.record.user_id, "ann");
}

#[test]
fn say_message_line_stores_its_record() {
    let composed = say_message("hello", "lobby", "ann").unwrap();
    assert_eq!(composed.line, encode_record(&composed.record).unwrap());
    assert!(composed.line.ends_with('\n'));
}

#[test]
fn say_message_stamps_the_current_time_in_utc() {
    let before = chrono::Utc::now();
    let composed = say_message("hello", "lobby", "ann").unwrap();
    let after = chrono::Utc::now();
    let stamped = chrono::DateTime::parse_from_rfc3339(&composed.record.timestamp).unwrap();
    assert_eq!(stamped.offset().local_minus_utc(), 0);
    assert!(before <= stamped.to_utc());
    assert!(stamped.to_utc() <= after);
    assert!(composed.record.timestamp.ends_with("+00:00"));
}
