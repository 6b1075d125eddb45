//! The message record and the errors of the library.

use vstd::prelude::*;

verus! {

/// One entry of a room's log.
#[derive(Debug, Clone, PartialEq, Eq)]
pub struct Message {
    /// The room the message was sent to.
    pub room: String,
    /// Who sent it; any text.
    pub user_id: String,
    /// The body.
    pub message: String,
    /// When it was composed, as RFC 3339 text.
    pub timestamp: String,
}

/// A message as contracts see it: the text of each field.
pub ghost struct MessageText {
    pub room: Seq<char>,
    pub user_id: Seq<char>,
    pub message: Seq<char>,
    pub timestamp: Seq<char>,
}

impl View for Message {
    type V = MessageText;

    open spec fn view(&self) -> MessageText {
        MessageText {
            room: self.room@,
            user_id: self.user_id@,
            message: self.message@,
            timestamp: self.timestamp@,
        }
    }
}

impl DeepView for Message {
    type V = MessageText;

    open spec fn deep_view(&self) -> MessageText {
        self@
    }
}

/// A point in time: whole seconds since 1970-01-01T00:00:00Z, and the
/// nanoseconds past that second. Within a leap second the nanoseconds count
/// on past 999,999,999, as `chrono` has it.
#[derive(Debug, Clone, Copy, PartialEq, Eq, Structural)]
pub struct Moment {
    /// Whole seconds since 1970-01-01T00:00:00Z; negative before it.
    pub seconds: i64,
    /// Nanoseconds past `seconds`.
    pub nanos: u32,
}

/// A record together with the moment that its timestamp names.
#[derive(Debug, Clone, PartialEq, Eq)]
pub struct Entry {
    /// The record as it was stored.
    pub record: Message,
    /// The moment that `record.timestamp` names.
    pub moment: Moment,
}

/// An entry as contracts see it.
pub ghost struct EntryText {
    pub record: MessageText,
    pub moment: Moment,
}

impl View for Entry {
    type V = EntryText;

    open spec fn view(&self) -> EntryText {
        EntryText { record: self.record@, moment: self.moment }
    }
}

impl DeepView for Entry {
    type V = EntryText;

    open spec fn deep_view(&self) -> EntryText {
        self@
    }
}

/// Why an operation of the library failed.
#[derive(Debug, Clone, Copy, PartialEq, Eq)]
pub enum LogError {
    /// No home directory was given, so there is no place for room files.
    HomeUnavailable,
    /// A field of the record could not be written as JSON.
    Encode,
    /// The record at `position` of the selected tail carries a timestamp
    /// that is no RFC 3339 date and time.
    BadTimestamp { position: usize },
}

} // verus!
