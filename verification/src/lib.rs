//! Verified core of `piper`, a local chat room kept as one append-only
//! file per room.
//!
//! A room's file holds one JSON object per line, each a message with its
//! room, sender and timestamp. This crate composes the line that is
//! appended for a message ([`say_message`]) and reads a file's content back
//! into the most recent messages ([`read_tail`]). It touches no file
//! itself: the caller hands it the bytes of a file and stores the line it
//! returns, at the place that [`locate_room`] names.
//!
//! JSON text is written and read by `serde_json`, timestamps by `chrono`;
//! the modules `json` and `time` state what is taken from them. All else is
//! proved: how a file falls into lines, which lines hold a record, which
//! records a read selects, and that an append adds one line and leaves
//! every earlier record as it was. The module `rooms` states this of a
//! directory of room files.

pub mod decode;
pub mod encode;
pub mod json;
pub mod lines;
pub mod location;
pub mod record;
pub mod rooms;
pub mod tail;
pub mod text;
pub mod time;

pub use crate::encode::say_message;
pub use crate::encode::Composed;
pub use crate::location::locate_room;
pub use crate::location::RoomLocation;
pub use crate::record::Entry;
pub use crate::record::LogError;
pub use crate::record::Message;
pub use crate::record::Moment;
pub use crate::tail::read_tail;
pub use crate::tail::TAIL_LIMIT;
