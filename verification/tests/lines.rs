use piper::lines::split_lines;
use piper::lines::LINE_FEED;

#[test]
fn line_feed_is_the_newline_byte() {
    assert_eq!(LINE_FEED, b'\n');
}

#[test]
fn split_lines_of_nothing_is_nothing() {
    assert_eq!(split_lines(b""), Vec::<Vec<u8>>::new());
}

#[test]
fn split_lines_ends_a_line_at_each_line_feed() {
    assert_eq!(split_lines(b"ab\ncd\n"), vec![b"ab".to_vec(), b"cd".to_vec()]);
}

#[test]
fn split_lines_keeps_an_unfinished_last_line() {
    assert_eq!(split_lines(b"ab\ncd"), vec![b"ab".to_vec(), b"cd".to_vec()]);
    assert_eq!(split_lines(b"cd"), vec![b"cd".to_vec()]);
}

#[test]
fn split_lines_keeps_empty_lines() {
    assert_eq!(split_lines(b"\n"), vec![Vec::<u8>::new()]);
    assert_eq!(
        split_lines(b"a\n\nb\n"),
        vec![b"a".to_vec(), Vec::<u8>::new(), b"b".to_vec()]
    );
    assert_eq!(split_lines(b"\n\n"), vec![Vec::<u8>::new(), Vec::<u8>::new()]);
}

#[test]
fn split_lines_leaves_carriage_returns_in_the_line() {
    assert_eq!(split_lines(b"ab\r\ncd\r\n"), vec![b"ab\r".to_vec(), b"cd\r".to_vec()]);
}

#[test]
fn split_lines_takes_any_bytes() {
    assert_eq!(
        split_lines(&[0xff, 0x00, 0x0a, 0x80]),
        vec![vec![0xff, 0x00], vec![0x80]]
    );
}
