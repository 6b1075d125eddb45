//! The most recent records of a room.

use vstd::prelude::*;

use crate::decode::parse_records;
use crate::decode::records_of;
use crate::record::Entry;
use crate::record::EntryText;
use crate::record::LogError;
use crate::record::Message;
use crate::record::MessageText;
use crate::record::Moment;
use crate::time::parse_rfc3339;
use crate::time::rfc3339_moment;

verus! {

/// How many records a read returns at most.
pub const TAIL_LIMIT: usize = 10;

/// The last `limit` of `items` in their order, or all of them where there
/// are no more than `limit`.
pub open spec fn tail_of<T>(items: Seq<T>, limit: nat) -> Seq<T> {
    if items.len() <= limit {
        items
    } else {
        items.skip(items.len() - limit)
    }
}

/// The tail is as long as the limit allows and holds the last items, each at
/// its place from the end.
pub proof fn lemma_tail_holds_the_latest<T>(items: Seq<T>, limit: nat)
    ensures
        tail_of(items, limit).len() == if items.len() <= limit {
            items.len()
        } else {
            limit
        },
        forall|i: int|
            0 <= i < tail_of(items, limit).len() ==> #[trigger] tail_of(items, limit)[i] == items[
                items.len() - tail_of(items, limit).len() + i],
{
}

/// Keeps the last `limit` of `items`.
pub fn select_tail<T>(items: Vec<T>, limit: usize) -> (tail: Vec<T>)
    ensures
        tail@ == tail_of(items@, limit as nat),
{
    let mut items = items;
    if items.len() <= limit {
        items
    } else {
        let from: usize = items.len() - limit;
        items.split_off(from)
    }
}

/// The timestamp of `record` names a date and time.
pub open spec fn readable(record: MessageText) -> bool {
    rfc3339_moment(record.timestamp) is Some
}

/// `record` with the moment that its timestamp names.
pub open spec fn entry_of(record: MessageText) -> EntryText {
    let (seconds, nanos) = rfc3339_moment(record.timestamp).unwrap();
    EntryText { record, moment: Moment { seconds, nanos } }
}

/// Every record of `records` with the moment of its timestamp.
pub open spec fn entries_of(records: Seq<MessageText>) -> Seq<EntryText> {
    records.map_values(|record: MessageText| entry_of(record))
}

/// `position` is the first place in `records` whose timestamp names no
/// date and time.
pub open spec fn first_unreadable(records: Seq<MessageText>, position: int) -> bool {
    &&& 0 <= position < records.len()
    &&& !readable(records[position])
    &&& forall|i: int| 0 <= i < position ==> readable(#[trigger] records[i])
}

/// What reading the timestamp of `record` gave: the entry to show, or the
/// failure of the read where the timestamp named no date and time.
pub fn timed_entry(record: Message, parsed: Option<(i64, u32)>, position: usize) -> (out: Result<
    Entry,
    LogError,
>)
    ensures
        match parsed {
            Some((seconds, nanos)) => out.is_ok() && out.unwrap()@ == (EntryText {
                record: record@,
                moment: Moment { seconds, nanos },
            }),
            None => out == Err::<Entry, LogError>(LogError::BadTimestamp { position }),
        },
{
    match parsed {
        Some((seconds, nanos)) => Ok(Entry { record, moment: Moment { seconds, nanos } }),
        None => Err(LogError::BadTimestamp { position }),
    }
}

/// Reads the timestamp of every record. The first one that names no date
/// and time fails the whole read.
pub fn timed_entries(records: Vec<Message>) -> (out: Result<Vec<Entry>, LogError>)
    ensures
        match out {
            Ok(entries) => entries.deep_view() == entries_of(records.deep_view()) && forall|i: int|
                0 <= i < records.len() ==> readable(#[trigger] records.deep_view()[i]),
            Err(error) => error matches LogError::BadTimestamp { position } && first_unreadable(
                records.deep_view(),
                position as int,
            ),
        },
{
    let ghost all = records.deep_view();
    assert(all.len() == records.len());
    let mut entries: Vec<Entry> = Vec::new();
    let mut position: usize = 0;
    for record in it: records
        invariant
            position == it.index(),
            all.len() <= usize::MAX,
            it.seq().len() == all.len(),
            forall|i: int| 0 <= i < it.seq().len() ==> (#[trigger] it.seq()[i])@ == all[i],
            entries.deep_view() == entries_of(all.take(position as int)),
            forall|i: int| 0 <= i < position ==> readable(#[trigger] all[i]),
    {
        let parsed = parse_rfc3339(record.timestamp.as_str());
        match timed_entry(record, parsed, position) {
            Ok(entry) => {
                let ghost earlier = entries.deep_view();
                entries.push(entry);
                assert(entries.deep_view() == earlier.push(entry@));
            },
            Err(error) => {
                return Err(error);
            },
        }
        position += 1;
    }
    Ok(entries)
}

/// The content of a room's file as contracts see it; `None` where the room
/// has no file.
pub open spec fn content_of(file: Option<&[u8]>) -> Option<Seq<u8>> {
    match file {
        Some(content) => Some(content@),
        None => None,
    }
}

/// The records that a read of a room selects: the last `TAIL_LIMIT` that
/// its file holds, oldest first; none where the room has no file.
pub open spec fn tail_records(file: Option<Seq<u8>>) -> Seq<MessageText> {
    match file {
        Some(content) => tail_of(records_of(content), TAIL_LIMIT as nat),
        None => Seq::empty(),
    }
}

/// The most recent records of a room, oldest first, each with the moment
/// of its timestamp.
///
/// `file` is the content of the room's file, or `None` where the room has
/// no file yet, which is no failure: the result is then empty. Lines that
/// hold no record are passed over. Of the records found, the last
/// `TAIL_LIMIT` are selected; a timestamp among them that names no date and
/// time fails the read, the first such one being reported.
pub fn read_tail(file: Option<&[u8]>) -> (out: Result<Vec<Entry>, LogError>)
    ensures
        file is None ==> out is Ok && out.unwrap()@.len() == 0,
        match out {
            Ok(entries) => {
                &&& entries.deep_view() == entries_of(tail_records(content_of(file)))
                &&& forall|i: int|
                    0 <= i < tail_records(content_of(file)).len() ==> readable(
                        #[trigger] tail_records(content_of(file))[i],
                    )
            },
            Err(error) => error matches LogError::BadTimestamp { position } && first_unreadable(
                tail_records(content_of(file)),
                position as int,
            ),
        },
{
    match file {
        None => Ok(Vec::new()),
        Some(content) => {
            let records = parse_records(content);
            let recent = select_tail(records, TAIL_LIMIT);
            assert(recent.deep_view() == tail_of(records.deep_view(), TAIL_LIMIT as nat));
            timed_entries(recent)
        },
    }
}

} // verus!
