//! Lines of a room file.
//!
//! A file is a sequence of bytes; each line feed ends a line. Bytes after
//! the last line feed form a last line of their own, which is what a
//! write that was cut short leaves behind.

use vstd::prelude::*;
use vstd::slice::slice_subrange;
use vstd::slice::slice_to_vec;

verus! {

/// The byte that ends a line.
pub const LINE_FEED: u8 = 10;

/// Index of the first line feed in `content`, or its length where it holds
/// none.
pub open spec fn line_end(content: Seq<u8>) -> int
    decreases content.len(),
{
    if content.len() == 0 || content[0] == LINE_FEED {
        0
    } else {
        1 + line_end(content.skip(1))
    }
}

/// The lines of `content`, in order, without their line feeds.
pub open spec fn lines_of(content: Seq<u8>) -> Seq<Seq<u8>>
    decreases content.len(),
    via lines_of_decreases
{
    if content.len() == 0 {
        Seq::empty()
    } else if line_end(content) >= content.len() {
        seq![content]
    } else {
        seq![content.take(line_end(content))] + lines_of(content.skip(line_end(content) + 1))
    }
}

#[via_fn]
proof fn lines_of_decreases(content: Seq<u8>) {
    lemma_line_end(content);
}

/// `content` is empty or ends with a line feed: the next byte written
/// starts a new line.
pub open spec fn is_terminated(content: Seq<u8>) -> bool {
    content.len() == 0 || content.last() == LINE_FEED
}

/// What `line_end` finds: no line feed before it, and one at it unless the
/// content ran out.
pub proof fn lemma_line_end(content: Seq<u8>)
    ensures
        0 <= line_end(content) <= content.len(),
        forall|i: int| 0 <= i < line_end(content) ==> content[i] != LINE_FEED,
        line_end(content) < content.len() ==> content[line_end(content)] == LINE_FEED,
    decreases content.len(),
{
    if content.len() == 0 || content[0] == LINE_FEED {
    } else {
        let rest = content.skip(1);
        lemma_line_end(rest);
        assert forall|i: int| 0 <= i < line_end(content) implies content[i] != LINE_FEED by {
            if i > 0 {
                assert(content[i] == rest[i - 1]);
            }
        }
    }
}

/// `line_end` is the only index with that property.
pub proof fn lemma_line_end_is(content: Seq<u8>, end: int)
    requires
        0 <= end <= content.len(),
        forall|i: int| 0 <= i < end ==> content[i] != LINE_FEED,
        end < content.len() ==> content[end] == LINE_FEED,
    ensures
        line_end(content) == end,
{
    lemma_line_end(content);
}

/// A line that a line feed ends is the first line; the rest follows.
pub proof fn lemma_first_line(content: Seq<u8>, end: int)
    requires
        0 <= end < content.len(),
        forall|i: int| 0 <= i < end ==> content[i] != LINE_FEED,
        content[end] == LINE_FEED,
    ensures
        lines_of(content) == seq![content.take(end)] + lines_of(content.skip(end + 1)),
{
    lemma_line_end_is(content, end);
}

/// Bytes without a line feed are one line, or none where there are no
/// bytes.
pub proof fn lemma_single_line(content: Seq<u8>)
    requires
        !content.contains(LINE_FEED),
    ensures
        lines_of(content) == if content.len() == 0 {
            Seq::<Seq<u8>>::empty()
        } else {
            seq![content]
        },
{
    lemma_line_end_is(content, content.len() as int);
}

/// After terminated content, further bytes are split on their own: no
/// line reaches across the seam.
pub proof fn lemma_lines_after_terminated(head: Seq<u8>, rest: Seq<u8>)
    requires
        is_terminated(head),
    ensures
        lines_of(head + rest) == lines_of(head) + lines_of(rest),
    decreases head.len(),
{
    if head.len() > 0 {
        let whole = head + rest;
        let end = line_end(head);
        lemma_line_end(head);
        lemma_first_line(whole, end);
        let tail = head.skip(end + 1);
        assert(whole.take(end) == head.take(end));
        assert(whole.skip(end + 1) == tail + rest);
        lemma_lines_after_terminated(tail, rest);
    }
}

/// Appending one line and its line feed to terminated content adds exactly
/// that line, and leaves the content terminated.
pub proof fn lemma_appended_line(content: Seq<u8>, body: Seq<u8>)
    requires
        is_terminated(content),
        !body.contains(LINE_FEED),
    ensures
        lines_of(content + body.push(LINE_FEED)) == lines_of(content).push(body),
        is_terminated(content + body.push(LINE_FEED)),
{
    let line = body.push(LINE_FEED);
    lemma_lines_after_terminated(content, line);
    lemma_first_line(line, body.len() as int);
    assert(line.take(body.len() as int) == body);
}

/// The content of a file that began empty and to which each of `bodies` was
/// appended in turn, each followed by a line feed.
pub open spec fn written(bodies: Seq<Seq<u8>>) -> Seq<u8>
    decreases bodies.len(),
{
    if bodies.len() == 0 {
        Seq::empty()
    } else {
        written(bodies.drop_last()) + bodies.last().push(LINE_FEED)
    }
}

/// A file to which lines were appended one after the other holds exactly
/// those lines, in the order of the appends: as many lines as appends.
pub proof fn lemma_written_lines(bodies: Seq<Seq<u8>>)
    requires
        forall|i: int| 0 <= i < bodies.len() ==> !(#[trigger] bodies[i]).contains(LINE_FEED),
    ensures
        lines_of(written(bodies)) == bodies,
        is_terminated(written(bodies)),
    decreases bodies.len(),
{
    if bodies.len() > 0 {
        let earlier = bodies.drop_last();
        lemma_written_lines(earlier);
        lemma_appended_line(written(earlier), bodies.last());
    }
}

/// The bytes that each vector of `lines` holds.
pub open spec fn line_views(lines: Seq<Vec<u8>>) -> Seq<Seq<u8>> {
    lines.map_values(|line: Vec<u8>| line@)
}

/// Splits a file's content into its lines.
pub fn split_lines(content: &[u8]) -> (lines: Vec<Vec<u8>>)
    ensures
        line_views(lines@) == lines_of(content@),
{
    let mut lines: Vec<Vec<u8>> = Vec::new();
    let mut start: usize = 0;
    let mut at: usize = 0;
    assert(content@.skip(0) == content@);
    while at < content.len()
        invariant
            start <= at <= content.len(),
            forall|i: int| start <= i < at ==> content@[i] != LINE_FEED,
            lines_of(content@) == line_views(lines@) + lines_of(content@.skip(start as int)),
        decreases content.len() - at,
    {
        if content[at] == LINE_FEED {
            let line = slice_to_vec(slice_subrange(content, start, at));
            proof {
                let rest = content@.skip(start as int);
                lemma_first_line(rest, at - start);
                assert(rest.take(at - start) == line@);
                assert(rest.skip(at - start + 1) == content@.skip(at + 1));
            }
            lines.push(line);
            start = at + 1;
        }
        at += 1;
    }
    proof {
        lemma_single_line(content@.skip(start as int));
    }
    if start < content.len() {
        lines.push(slice_to_vec(slice_subrange(content, start, content.len())));
    }
    lines
}

} // verus!
