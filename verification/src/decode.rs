//! Reading records back from the content of a room file.
//!
//! Every line is read on its own. A line that is no record (cut short,
//! damaged, of another shape) is passed over, so that what was written
//! before it stays readable.

use vstd::prelude::*;

use crate::json::json_members;
use crate::json::parse_members;
use crate::lines::is_terminated;
use crate::lines::lemma_appended_line;
use crate::lines::lemma_lines_after_terminated;
use crate::lines::lemma_single_line;
use crate::lines::line_views;
use crate::lines::lines_of;
use crate::lines::split_lines;
use crate::lines::LINE_FEED;
use crate::record::Message;
use crate::record::MessageText;

verus! {

/// The text under `key` among the members of a JSON object: that of the
/// first member with this key, where its value is a string.
pub open spec fn member_text(
    members: Seq<(Seq<char>, Option<Seq<char>>)>,
    key: Seq<char>,
) -> Option<Seq<char>>
    decreases members.len(),
{
    if members.len() == 0 {
        None
    } else if members[0].0 == key {
        members[0].1
    } else {
        member_text(members.skip(1), key)
    }
}

/// The record that a JSON object with these members stands for. All four
/// fields must be there, each with a string; members under other keys are
/// ignored.
pub open spec fn record_of(members: Seq<(Seq<char>, Option<Seq<char>>)>) -> Option<MessageText> {
    match (
        member_text(members, "room"@),
        member_text(members, "user_id"@),
        member_text(members, "message"@),
        member_text(members, "timestamp"@),
    ) {
        (Some(room), Some(user_id), Some(message), Some(timestamp)) => Some(
            MessageText { room, user_id, message, timestamp },
        ),
        _ => None,
    }
}

/// The record that `line` holds, if it holds one.
pub open spec fn parsed_line(line: Seq<u8>) -> Option<MessageText> {
    match json_members(line) {
        Some(members) => record_of(members),
        None => None,
    }
}

/// The records of the lines that hold one, in the order of the lines.
pub open spec fn records_in(lines: Seq<Seq<u8>>) -> Seq<MessageText>
    decreases lines.len(),
{
    if lines.len() == 0 {
        Seq::empty()
    } else {
        match parsed_line(lines.last()) {
            Some(record) => records_in(lines.drop_last()).push(record),
            None => records_in(lines.drop_last()),
        }
    }
}

/// The records that a room file with this content holds, oldest first.
pub open spec fn records_of(content: Seq<u8>) -> Seq<MessageText> {
    records_in(lines_of(content))
}

/// The records of two runs of lines are those of the first run, then those
/// of the second.
pub proof fn lemma_records_in_both(first: Seq<Seq<u8>>, second: Seq<Seq<u8>>)
    ensures
        records_in(first + second) == records_in(first) + records_in(second),
    decreases second.len(),
{
    if second.len() > 0 {
        assert((first + second).drop_last() == first + second.drop_last());
        lemma_records_in_both(first, second.drop_last());
    }
}

/// Where every line holds a record, there is one record for each line, in
/// the order of the lines.
pub proof fn lemma_every_line_a_record(lines: Seq<Seq<u8>>)
    ensures
        (forall|i: int| 0 <= i < lines.len() ==> parsed_line(#[trigger] lines[i]) is Some)
            ==> records_in(lines) == lines.map_values(|line: Seq<u8>| parsed_line(line).unwrap()),
    decreases lines.len(),
{
    if forall|i: int| 0 <= i < lines.len() ==> parsed_line(#[trigger] lines[i]) is Some {
        if lines.len() > 0 {
            lemma_every_line_a_record(lines.drop_last());
        }
    }
}

/// What was written before stays readable: whatever bytes follow terminated
/// content, the records of that content come first and unchanged.
pub proof fn lemma_earlier_records_stay(content: Seq<u8>, rest: Seq<u8>)
    requires
        is_terminated(content),
    ensures
        records_of(content + rest) == records_of(content) + records_of(rest),
{
    lemma_lines_after_terminated(content, rest);
    lemma_records_in_both(lines_of(content), lines_of(rest));
}

/// An append to terminated content adds the record of the appended line as
/// the newest one, and nothing where the line holds no record.
pub proof fn lemma_appended_record(content: Seq<u8>, body: Seq<u8>)
    requires
        is_terminated(content),
        !body.contains(LINE_FEED),
    ensures
        records_of(content + body.push(LINE_FEED)) == match parsed_line(body) {
            Some(record) => records_of(content).push(record),
            None => records_of(content),
        },
{
    lemma_appended_line(content, body);
    assert(lines_of(content).push(body).drop_last() == lines_of(content));
}

/// Bytes after the last line feed are read as a line of their own. Where
/// they hold no record, because the write was cut short or the bytes are
/// damaged, they are passed over and take nothing from what stands before
/// them.
pub proof fn lemma_unfinished_end(content: Seq<u8>, end: Seq<u8>)
    requires
        is_terminated(content),
        !end.contains(LINE_FEED),
    ensures
        records_of(content + end) == match parsed_line(end) {
            Some(record) if end.len() > 0 => records_of(content).push(record),
            _ => records_of(content),
        },
{
    lemma_earlier_records_stay(content, end);
    lemma_single_line(end);
    if end.len() > 0 {
        let lines = seq![end];
        assert(lines.drop_last() == Seq::<Seq<u8>>::empty());
        assert(records_in(lines) == match parsed_line(end) {
            Some(record) => seq![record],
            None => Seq::empty(),
        });
    }
}

/// Nothing mends an unfinished last line. The next append is joined to it:
/// the two are read as one line, and the appended record is found only
/// where that line holds one.
pub proof fn lemma_append_after_unfinished_end(content: Seq<u8>, end: Seq<u8>, body: Seq<u8>)
    requires
        is_terminated(content),
        !end.contains(LINE_FEED),
        !body.contains(LINE_FEED),
    ensures
        records_of(content + end + body.push(LINE_FEED)) == match parsed_line(end + body) {
            Some(record) => records_of(content).push(record),
            None => records_of(content),
        },
{
    lemma_appended_record(content, end + body);
    assert(content + end + body.push(LINE_FEED) == content + (end + body).push(LINE_FEED));
}

fn find_text(members: &Vec<(String, Option<String>)>, key: &str) -> (out: Option<String>)
    ensures
        out.deep_view() == member_text(members.deep_view(), key@),
{
    let wanted: String = key.to_owned();
    let mut at: usize = 0;
    assert(members.deep_view().skip(0) == members.deep_view());
    while at < members.len()
        invariant
            at <= members.len(),
            wanted@ == key@,
            member_text(members.deep_view(), key@) == member_text(
                members.deep_view().skip(at as int),
                key@,
            ),
        decreases members.len() - at,
    {
        assert(members.deep_view().skip(at as int).skip(1) == members.deep_view().skip(at + 1));
        if members[at].0 == wanted {
            return match &members[at].1 {
                Some(text) => Some(text.clone()),
                None => None,
            };
        }
        at += 1;
    }
    None
}

/// Builds the record that the members of a JSON object stand for.
pub fn record_from_members(members: &Vec<(String, Option<String>)>) -> (out: Option<Message>)
    ensures
        out.deep_view() == record_of(members.deep_view()),
{
    let room = match find_text(members, "room") {
        Some(text) => text,
        None => {
            return None;
        },
    };
    let user_id = match find_text(members, "user_id") {
        Some(text) => text,
        None => {
            return None;
        },
    };
    let message = match find_text(members, "message") {
        Some(text) => text,
        None => {
            return None;
        },
    };
    let timestamp = match find_text(members, "timestamp") {
        Some(text) => text,
        None => {
            return None;
        },
    };
    Some(Message { room, user_id, message, timestamp })
}

/// Reads one line of a room file.
pub fn parse_line(line: &[u8]) -> (out: Option<Message>)
    ensures
        out.deep_view() == parsed_line(line@),
{
    match parse_members(line) {
        Some(members) => record_from_members(&members),
        None => None,
    }
}

/// Reads every record of a room file's content, oldest first.
pub fn parse_records(content: &[u8]) -> (records: Vec<Message>)
    ensures
        records.deep_view() == records_of(content@),
{
    let lines = split_lines(content);
    let mut records: Vec<Message> = Vec::new();
    let mut at: usize = 0;
    while at < lines.len()
        invariant
            at <= lines.len(),
            line_views(lines@) == lines_of(content@),
            records.deep_view() == records_in(line_views(lines@).take(at as int)),
        decreases lines.len() - at,
    {
        assert(line_views(lines@).take(at + 1).drop_last() == line_views(lines@).take(at as int));
        if let Some(record) = parse_line(lines[at].as_slice()) {
            records.push(record);
        }
        at += 1;
    }
    assert(line_views(lines@).take(lines.len() as int) == line_views(lines@));
    records
}

} // verus!
