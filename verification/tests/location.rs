use piper::location::locate_room;
use piper::location::room_file_name;
use piper::record::LogError;

#[test]
fn room_file_name_adds_the_ending() {
    assert_eq!(room_file_name("lobby"), "lobby.jsonl");
}

#[test]
fn room_file_name_takes_the_room_as_it_is() {
    assert_eq!(room_file_name(""), ".jsonl");
    assert_eq!(room_file_name("a b"), "a b.jsonl");
    assert_eq!(room_file_name("../up"), "../up.jsonl");
    assert_eq!(room_file_name("lobby.jsonl"), "lobby.jsonl.jsonl");
}

#[test]
fn room_file_name_differs_for_different_rooms() {
    assert_ne!(room_file_name("a"), room_file_name("b"));
    assert_ne!(room_file_name("a"), room_file_name("a "));
    assert_eq!(room_file_name("a"), room_file_name("a"));
}

#[test]
fn locate_room_needs_a_home() {
    assert_eq!(locate_room(None, "lobby"), Err(LogError::HomeUnavailable));
}

#[test]
fn locate_room_gives_the_parts_of_the_path() {
    let place = locate_room(Some("/home/ann"), "lobby").unwrap();
    assert_eq!(place.home, "/home/ann");
    assert_eq!(place.directory, ".piper");
    assert_eq!(place.file_name, "lobby.jsonl");
}

#[test]
fn locate_room_is_the_same_for_every_call() {
    assert_eq!(
        locate_room(Some("/home/ann"), "lobby"),
        locate_room(Some("/home/ann"), "lobby")
    );
}
