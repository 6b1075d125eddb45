//! Where the file of a room lies.
//!
//! All room files lie in one directory below the caller's home directory.
//! A room's file is named after the room, taken as it is. Nothing is
//! changed in a room name or refused: one that holds a path separator names
//! a file elsewhere, and two such names can lead to one file.

use vstd::prelude::*;
use vstd::string::*;

use crate::record::LogError;

verus! {

/// The name of the file of `room`: the room's name and the ending
/// `.jsonl`.
pub open spec fn file_name_of(room: Seq<char>) -> Seq<char> {
    room + ".jsonl"@
}

/// `room` holds no path separator: its file lies in the directory of room
/// files and has no other name there.
pub open spec fn is_plain_name(room: Seq<char>) -> bool {
    !room.contains('/') && !room.contains('\\')
}

/// The name of the directory of room files, below the home directory.
pub open spec fn storage_directory() -> Seq<char> {
    ".piper"@
}

/// The place of a room's file, in parts that the caller joins into a path:
/// `home`, then `directory`, then `file_name`.
#[derive(Debug, Clone, PartialEq, Eq)]
pub struct RoomLocation {
    /// The home directory that was given.
    pub home: String,
    /// The directory of room files, to be made where it does not exist.
    pub directory: String,
    /// The room's file in that directory.
    pub file_name: String,
}

/// The name of the file that holds the log of `room`.
pub fn room_file_name(room: &str) -> (name: String)
    ensures
        name@ == file_name_of(room@),
{
    String::from_str(room).concat(".jsonl")
}

/// Finds the place of the file of `room`. `home` is the caller's home
/// directory; where there is none the room cannot be placed.
pub fn locate_room(home: Option<&str>, room: &str) -> (out: Result<RoomLocation, LogError>)
    ensures
        match home {
            Some(home) => out.is_ok() && {
                let place = out.unwrap();
                &&& place.home@ == home@
                &&& place.directory@ == storage_directory()
                &&& place.file_name@ == file_name_of(room@)
            },
            None => out == Err::<RoomLocation, LogError>(LogError::HomeUnavailable),
        },
{
    match home {
        Some(home) => Ok(
            RoomLocation {
                home: String::from_str(home),
                directory: String::from_str(".piper"),
                file_name: room_file_name(room),
            },
        ),
        None => Err(LogError::HomeUnavailable),
    }
}

/// Two rooms share a file only where they are the same room.
pub proof fn lemma_rooms_have_their_own_files(first: Seq<char>, second: Seq<char>)
    ensures
        file_name_of(first) == file_name_of(second) <==> first == second,
{
    if file_name_of(first) == file_name_of(second) {
        let ending = ".jsonl"@;
        assert(first.len() == second.len()) by {
            assert(file_name_of(first).len() == first.len() + ending.len());
        }
        assert forall|i: int| 0 <= i < first.len() implies first[i] == second[i] by {
            assert(file_name_of(first)[i] == first[i]);
        }
        assert(first =~= second);
    }
}

} // verus!
