//! Text as the bytes of a file.
//!
//! A line is composed as text and stored as its UTF-8 bytes. The line feed
//! is one byte of its own in UTF-8 and part of no other character, so text
//! without a line feed gives bytes without one: a line of text is a line of
//! the file.

use vstd::prelude::*;
use vstd::utf8::*;

use crate::lines::LINE_FEED;

verus! {

/// The bytes of one character hold the line feed byte only where the
/// character is the line feed.
proof fn lemma_scalar_bytes(scalar: u32)
    by (bit_vector)
    requires
        scalar != 10,
        scalar <= 0x10FFFF,
    ensures
        (scalar & 0x7F) as u8 != 10u8 || scalar > 0x7F,
        0xC0u8 | ((scalar >> 6) & 0x1F) as u8 != 10u8,
        0xE0u8 | ((scalar >> 12) & 0x0F) as u8 != 10u8,
        0xF0u8 | ((scalar >> 18) & 0x7) as u8 != 10u8,
        0x80u8 | (scalar & 0x3F) as u8 != 10u8,
        0x80u8 | ((scalar >> 6) & 0x3F) as u8 != 10u8,
        0x80u8 | ((scalar >> 12) & 0x3F) as u8 != 10u8,
{
}

/// The bytes of two texts, one after the other, are the bytes of the texts
/// joined.
pub proof fn lemma_bytes_of_joined(first: Seq<char>, second: Seq<char>)
    ensures
        encode_utf8(first + second) == encode_utf8(first) + encode_utf8(second),
    decreases first.len(),
{
    if first.len() > 0 {
        assert((first + second).drop_first() == first.drop_first() + second);
        lemma_bytes_of_joined(first.drop_first(), second);
    }
}

/// Text without a line feed is stored as bytes without a line feed.
pub proof fn lemma_bytes_without_line_feed(text: Seq<char>)
    requires
        !text.contains('\n'),
    ensures
        !encode_utf8(text).contains(LINE_FEED),
    decreases text.len(),
{
    if text.len() > 0 {
        lemma_bytes_without_line_feed(text.drop_first());
        char_is_scalar(text[0]);
        if text[0] as u32 == 10 {
            char_u32_cast(text[0], 10u32);
            char_u32_cast('\n', 10u32);
        }
        lemma_scalar_bytes(text[0] as u32);
    }
}

/// A line of text, stored, is a line of the file: the bytes of the text,
/// which hold no line feed, and the line feed byte after them.
pub proof fn lemma_line_of_text(body: Seq<char>)
    requires
        !body.contains('\n'),
    ensures
        encode_utf8(body.push('\n')) == encode_utf8(body).push(LINE_FEED),
        !encode_utf8(body).contains(LINE_FEED),
{
    lemma_bytes_without_line_feed(body);
    lemma_bytes_of_joined(body, seq!['\n']);
    assert(body.push('\n') == body + seq!['\n']);
    let feed = seq!['\n'];
    assert(feed.drop_first() == Seq::<char>::empty());
    assert(encode_scalar(10u32) == seq![LINE_FEED]) by {
        assert((10u32 & 0x7F) as u8 == 10u8) by (bit_vector);
    }
    assert(encode_utf8(feed) == encode_scalar(10u32) + encode_utf8(Seq::<char>::empty()));
}

} // verus!
