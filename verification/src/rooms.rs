//! The directory of room files, as a model.
//!
//! The library touches no file. This module says what the files are to it:
//! a content for each file name, where an append to a room adds bytes to the
//! end of the room's file and makes the file where there was none, and a
//! read of a room selects the tail of the records of its file.
//!
//! Each file name stands for a file of its own here. That holds of the
//! files in one directory, so of rooms with plain names; a name that holds
//! a path separator is a path, and two paths can lead to one file.

use vstd::prelude::*;
use vstd::utf8::encode_utf8;

use crate::decode::lemma_every_line_a_record;
use crate::decode::parsed_line;
use crate::decode::records_in;
use crate::lines::is_terminated;
use crate::lines::lemma_appended_line;
use crate::lines::lemma_written_lines;
use crate::lines::lines_of;
use crate::lines::written;
use crate::lines::LINE_FEED;
use crate::location::file_name_of;
use crate::location::is_plain_name;
use crate::location::lemma_rooms_have_their_own_files;
use crate::record::MessageText;
use crate::tail::tail_of;
use crate::tail::tail_records;
use crate::tail::TAIL_LIMIT;
use crate::text::lemma_line_of_text;

verus! {

/// The content of the file of `room` among `files`, which holds a content
/// for each file name; `None` where the room has no file.
pub open spec fn file_of(files: Map<Seq<char>, Seq<u8>>, room: Seq<char>) -> Option<Seq<u8>> {
    if files.dom().contains(file_name_of(room)) {
        Some(files[file_name_of(room)])
    } else {
        None
    }
}

/// The files after `bytes` were appended to the file of `room`. A room
/// without a file gets one.
pub open spec fn after_append(
    files: Map<Seq<char>, Seq<u8>>,
    room: Seq<char>,
    bytes: Seq<u8>,
) -> Map<Seq<char>, Seq<u8>> {
    let before = match file_of(files, room) {
        Some(content) => content,
        None => Seq::empty(),
    };
    files.insert(file_name_of(room), before + bytes)
}

/// The files after each of `bodies` was appended to the file of `room` in
/// turn, each followed by a line feed.
pub open spec fn after_appends(
    files: Map<Seq<char>, Seq<u8>>,
    room: Seq<char>,
    bodies: Seq<Seq<u8>>,
) -> Map<Seq<char>, Seq<u8>>
    decreases bodies.len(),
{
    if bodies.len() == 0 {
        files
    } else {
        after_append(
            after_appends(files, room, bodies.drop_last()),
            room,
            bodies.last().push(LINE_FEED),
        )
    }
}

/// The records that a read of `room` selects.
pub open spec fn read_of(files: Map<Seq<char>, Seq<u8>>, room: Seq<char>) -> Seq<MessageText> {
    tail_records(file_of(files, room))
}

/// A room that was never appended to has no file, and a read of it selects
/// nothing. So does a read of a room whose file is empty.
pub proof fn lemma_unused_room_reads_empty(files: Map<Seq<char>, Seq<u8>>, room: Seq<char>)
    requires
        file_of(files, room) is None || file_of(files, room) == Some(Seq::<u8>::empty()),
    ensures
        read_of(files, room) == Seq::<MessageText>::empty(),
{
}

/// An append to one room changes the file of no other room, nor what a read
/// of another room selects. This is stated of rooms with plain names, whose
/// files are told apart by their names.
pub proof fn lemma_append_leaves_other_rooms(
    files: Map<Seq<char>, Seq<u8>>,
    room: Seq<char>,
    bytes: Seq<u8>,
    other: Seq<char>,
)
    requires
        is_plain_name(room),
        is_plain_name(other),
        room != other,
    ensures
        file_of(after_append(files, room, bytes), other) == file_of(files, other),
        read_of(after_append(files, room, bytes), other) == read_of(files, other),
{
    lemma_rooms_have_their_own_files(room, other);
}

/// An append rewrites nothing: the file of the room begins with what it
/// held before, and the appended bytes follow.
pub proof fn lemma_append_keeps_what_was_written(
    files: Map<Seq<char>, Seq<u8>>,
    room: Seq<char>,
    bytes: Seq<u8>,
)
    ensures
        file_of(after_append(files, room, bytes), room) == Some(
            match file_of(files, room) {
                Some(content) => content + bytes,
                None => bytes,
            },
        ),
{
}

/// After an append of a line that holds a record, that record is the newest
/// of the room, and the last that a read selects. The file of the room must
/// have been terminated, or absent.
pub proof fn lemma_append_then_read(
    files: Map<Seq<char>, Seq<u8>>,
    room: Seq<char>,
    body: Seq<u8>,
)
    requires
        file_of(files, room) matches Some(content) ==> is_terminated(content),
        !body.contains(LINE_FEED),
    ensures
        file_of(after_append(files, room, body.push(LINE_FEED)), room) is Some,
        is_terminated(file_of(after_append(files, room, body.push(LINE_FEED)), room).unwrap()),
        parsed_line(body) matches Some(record) ==> {
            let read = read_of(after_append(files, room, body.push(LINE_FEED)), room);
            read.len() > 0 && read.last() == record
        },
{
    let before = match file_of(files, room) {
        Some(content) => content,
        None => Seq::empty(),
    };
    lemma_appended_line(before, body);
}

/// The same of a line composed as text and stored as UTF-8: after the
/// append the file holds one line more, the bytes of the text, and where
/// that line holds a record it is the last that a read selects.
pub proof fn lemma_line_then_read(files: Map<Seq<char>, Seq<u8>>, room: Seq<char>, body: Seq<char>)
    requires
        file_of(files, room) matches Some(content) ==> is_terminated(content),
        !body.contains('\n'),
    ensures
        ({
            let before = match file_of(files, room) {
                Some(content) => content,
                None => Seq::empty(),
            };
            let after = after_append(files, room, encode_utf8(body.push('\n')));
            &&& file_of(after, room) matches Some(content) && is_terminated(content) && lines_of(
                content,
            ) == lines_of(before).push(encode_utf8(body))
            &&& parsed_line(encode_utf8(body)) matches Some(record) ==> read_of(after, room).len()
                > 0 && read_of(after, room).last() == record
        }),
{
    lemma_line_of_text(body);
    let before = match file_of(files, room) {
        Some(content) => content,
        None => Seq::empty(),
    };
    lemma_appended_line(before, encode_utf8(body));
}

/// After a number of appends to a room that had no file, the file holds
/// exactly one line for each append, in the order of the appends, and a
/// read selects the last `TAIL_LIMIT` of the records that the lines hold,
/// or all of them where they are no more, in that order. Where every
/// appended line holds a record, these are the records of the last appends.
pub proof fn lemma_appends_then_read(
    files: Map<Seq<char>, Seq<u8>>,
    room: Seq<char>,
    bodies: Seq<Seq<u8>>,
)
    requires
        file_of(files, room) is None,
        forall|i: int| 0 <= i < bodies.len() ==> !(#[trigger] bodies[i]).contains(LINE_FEED),
    ensures
        file_of(after_appends(files, room, bodies), room) == if bodies.len() == 0 {
            None
        } else {
            Some(written(bodies))
        },
        lines_of(written(bodies)) == bodies,
        read_of(after_appends(files, room, bodies), room) == tail_of(
            records_in(bodies),
            TAIL_LIMIT as nat,
        ),
        (forall|i: int| 0 <= i < bodies.len() ==> parsed_line(#[trigger] bodies[i]) is Some) ==> {
            let read = read_of(after_appends(files, room, bodies), room);
            &&& read.len() == if bodies.len() <= TAIL_LIMIT {
                bodies.len()
            } else {
                TAIL_LIMIT as nat
            }
            &&& forall|j: int|
                0 <= j < read.len() ==> #[trigger] read[j] == parsed_line(
                    bodies[bodies.len() - read.len() + j],
                ).unwrap()
        },
    decreases bodies.len(),
{
    lemma_written_lines(bodies);
    lemma_every_line_a_record(bodies);
    if bodies.len() > 0 {
        lemma_appends_then_read(files, room, bodies.drop_last());
    }
}

} // verus!
