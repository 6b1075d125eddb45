//! Composing the line that is appended for a message.
//!
//! A record is stored as one JSON object on a line of its own, the four
//! fields in a fixed order. The line is composed as text; a file holds its
//! UTF-8 bytes.

use vstd::prelude::*;
use vstd::string::*;

use crate::json::encode_text;
use crate::json::json_text;
use crate::record::LogError;
use crate::record::Message;
use crate::record::MessageText;
use crate::time::current_timestamp;

verus! {

/// A JSON object with the four fields of a record, in the order in which
/// they are stored, around values that are already JSON.
pub open spec fn framed(
    room: Seq<char>,
    user_id: Seq<char>,
    message: Seq<char>,
    timestamp: Seq<char>,
) -> Seq<char> {
    "{\"room\":"@ + room + ",\"user_id\":"@ + user_id + ",\"message\":"@ + message
        + ",\"timestamp\":"@ + timestamp + "}"@
}

/// The JSON object that stands for `record` in a room file, without the
/// line feed after it; `None` where a field cannot be written as JSON.
pub open spec fn record_body(record: MessageText) -> Option<Seq<char>> {
    match (
        json_text(record.room),
        json_text(record.user_id),
        json_text(record.message),
        json_text(record.timestamp),
    ) {
        (Some(room), Some(user_id), Some(message), Some(timestamp)) => Some(
            framed(room, user_id, message, timestamp),
        ),
        _ => None,
    }
}

/// The line that an append of `record` adds to a room file: its JSON object
/// and a line feed.
pub open spec fn record_line(record: MessageText) -> Option<Seq<char>> {
    match record_body(record) {
        Some(body) => Some(body.push('\n')),
        None => None,
    }
}

/// Frames four JSON values as the line of a record.
pub fn frame_record(room: &str, user_id: &str, message: &str, timestamp: &str) -> (line: String)
    ensures
        line@ == framed(room@, user_id@, message@, timestamp@).push('\n'),
{
    let mut line = String::from_str("{\"room\":");
    line.append(room);
    line.append(",\"user_id\":");
    line.append(user_id);
    line.append(",\"message\":");
    line.append(message);
    line.append(",\"timestamp\":");
    line.append(timestamp);
    line.append("}");
    line.append("\n");
    proof {
        reveal_strlit("\n");
    }
    line
}

/// A frame around values that hold no line feed holds none either: the
/// record stays on one line.
pub proof fn lemma_framed_is_one_line(
    room: Seq<char>,
    user_id: Seq<char>,
    message: Seq<char>,
    timestamp: Seq<char>,
)
    requires
        !room.contains('\n'),
        !user_id.contains('\n'),
        !message.contains('\n'),
        !timestamp.contains('\n'),
    ensures
        !framed(room, user_id, message, timestamp).contains('\n'),
{
    reveal_strlit("{\"room\":");
    reveal_strlit(",\"user_id\":");
    reveal_strlit(",\"message\":");
    reveal_strlit(",\"timestamp\":");
    reveal_strlit("}");
}

/// A record together with the line that stores it.
#[derive(Debug, Clone, PartialEq, Eq)]
pub struct Composed {
    /// The record, with the timestamp it was given.
    pub record: Message,
    /// The text to append to the room's file: the record as one JSON
    /// object, and a line feed.
    pub line: String,
}

/// Writes `record` as the line that stores it. Each field is written as
/// JSON by `serde_json`; where it refuses one the error is `Encode`. The
/// line holds one line feed, its last character.
pub fn encode_record(record: &Message) -> (out: Result<String, LogError>)
    ensures
        match out {
            Ok(line) => record_line(record@) == Some(line@) && !record_body(
                record@,
            ).unwrap().contains('\n'),
            Err(error) => error == LogError::Encode && record_line(record@) is None,
        },
{
    let room = match encode_text(record.room.as_str()) {
        Ok(literal) => literal,
        Err(_) => {
            return Err(LogError::Encode);
        },
    };
    let user_id = match encode_text(record.user_id.as_str()) {
        Ok(literal) => literal,
        Err(_) => {
            return Err(LogError::Encode);
        },
    };
    let message = match encode_text(record.message.as_str()) {
        Ok(literal) => literal,
        Err(_) => {
            return Err(LogError::Encode);
        },
    };
    let timestamp = match encode_text(record.timestamp.as_str()) {
        Ok(literal) => literal,
        Err(_) => {
            return Err(LogError::Encode);
        },
    };
    proof {
        lemma_framed_is_one_line(room@, user_id@, message@, timestamp@);
    }
    Ok(frame_record(room.as_str(), user_id.as_str(), message.as_str(), timestamp.as_str()))
}

/// Composes the record of a message sent now, and the line that stores it.
///
/// The three texts are taken as they are. The timestamp is the current time
/// in UTC, read from the system clock by `chrono`, which panics where the
/// clock stands before 1970. The call fails only where `serde_json` refuses
/// to write one of the four texts.
pub fn say_message(message: &str, room: &str, user_id: &str) -> (out: Result<Composed, LogError>)
    ensures
        match out {
            Ok(composed) => {
                &&& composed.record@.room == room@
                &&& composed.record@.user_id == user_id@
                &&& composed.record@.message == message@
                &&& record_line(composed.record@) == Some(composed.line@)
                &&& !record_body(composed.record@).unwrap().contains('\n')
            },
            Err(error) => error == LogError::Encode && exists|timestamp: Seq<char>|
                #[trigger] record_line(
                    MessageText { room: room@, user_id: user_id@, message: message@, timestamp },
                ) is None,
        },
{
    let record = Message {
        room: room.to_owned(),
        user_id: user_id.to_owned(),
        message: message.to_owned(),
        timestamp: current_timestamp(),
    };
    match encode_record(&record) {
        Ok(line) => Ok(Composed { record, line }),
        Err(error) => Err(error),
    }
}

} // verus!
