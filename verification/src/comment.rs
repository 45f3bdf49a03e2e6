//! Finding the part of a line that is commentary.
//!
//! The extractor looks for the first multiline start marker, the last
//! multiline end marker and the first inline marker of the language in the
//! line, and decides from these three positions, and from whether the line
//! starts inside a multiline comment, which bytes of the line are comment
//! text and whether the next line starts inside a multiline comment.

use crate::filetype::{marker_bytes, FileType, Grammar};
use vstd::prelude::*;

verus! {

/// Whether `marker` stands in `line` at index `at`.
pub open spec fn occurs_at(line: Seq<u8>, marker: Seq<u8>, at: int) -> bool {
    0 <= at && at + marker.len() <= line.len() && line.subrange(at, at + marker.len()) == marker
}

/// Whether `marker` stands somewhere in `line`.
pub open spec fn contains_marker(line: Seq<u8>, marker: Seq<u8>) -> bool {
    exists|at: int| occurs_at(line, marker, at)
}

/// Whether `at` is the first place in `line` at which `marker` stands.
pub open spec fn is_first_occurrence(line: Seq<u8>, marker: Seq<u8>, at: int) -> bool {
    occurs_at(line, marker, at) && forall|j: int| j < at ==> !occurs_at(line, marker, j)
}

/// Whether `at` is the last place in `line` at which `marker` stands.
pub open spec fn is_last_occurrence(line: Seq<u8>, marker: Seq<u8>, at: int) -> bool {
    occurs_at(line, marker, at) && forall|j: int| at < j ==> !occurs_at(line, marker, j)
}

/// The first place in `line` at which `marker` stands, if there is one.
pub open spec fn first_occurrence(line: Seq<u8>, marker: Seq<u8>) -> Option<int> {
    if contains_marker(line, marker) {
        Some(choose|at: int| is_first_occurrence(line, marker, at))
    } else {
        None
    }
}

/// The last place in `line` at which `marker` stands, if there is one.
pub open spec fn last_occurrence(line: Seq<u8>, marker: Seq<u8>) -> Option<int> {
    if contains_marker(line, marker) {
        Some(choose|at: int| is_last_occurrence(line, marker, at))
    } else {
        None
    }
}

/// The first place of a marker that the language may not have.
pub open spec fn first_of(line: Seq<u8>, marker: Option<Seq<u8>>) -> Option<int> {
    match marker {
        Some(m) => first_occurrence(line, m),
        None => None,
    }
}

/// The last place of a marker that the language may not have.
pub open spec fn last_of(line: Seq<u8>, marker: Option<Seq<u8>>) -> Option<int> {
    match marker {
        Some(m) => last_occurrence(line, m),
        None => None,
    }
}

/// A place with no occurrence before it is the first occurrence.
pub proof fn lemma_first_occurrence_is(line: Seq<u8>, marker: Seq<u8>, at: int)
    requires
        is_first_occurrence(line, marker, at),
    ensures
        first_occurrence(line, marker) == Some(at),
{
    let c = choose|c: int| is_first_occurrence(line, marker, c);
    assert(is_first_occurrence(line, marker, c));
    if c < at {
        assert(!occurs_at(line, marker, c));
    }
    if at < c {
        assert(!occurs_at(line, marker, at));
    }
}

/// A place with no occurrence behind it is the last occurrence.
pub proof fn lemma_last_occurrence_is(line: Seq<u8>, marker: Seq<u8>, at: int)
    requires
        is_last_occurrence(line, marker, at),
    ensures
        last_occurrence(line, marker) == Some(at),
{
    let c = choose|c: int| is_last_occurrence(line, marker, c);
    assert(is_last_occurrence(line, marker, c));
    if c < at {
        assert(!occurs_at(line, marker, at));
    }
    if at < c {
        assert(!occurs_at(line, marker, c));
    }
}

/// Whether `marker` stands in `line` at index `at`.
fn matches_at(line: &[u8], marker: &[u8], at: usize) -> (found: bool)
    requires
        at + marker@.len() <= line@.len(),
    ensures
        found == occurs_at(line@, marker@, at as int),
{
    let n = line.len();
    let mut k: usize = 0;
    while k < marker.len()
        invariant
            at + marker@.len() <= line@.len() == n,
            k <= marker@.len(),
            forall|j: int| 0 <= j < k ==> line@[at + j] == marker@[j],
        decreases marker@.len() - k,
    {
        if line[at + k] != marker[k] {
            proof {
                let part = line@.subrange(at as int, at + marker@.len());
                assert(part[k as int] == line@[at + k]);
            }
            return false;
        }
        k += 1;
    }
    assert(line@.subrange(at as int, at + marker@.len()) =~= marker@);
    true
}

/// The index of the first occurrence of `marker` in `line`.
pub fn find(line: &[u8], marker: &[u8]) -> (found: Option<usize>)
    ensures
        match found {
            Some(at) => is_first_occurrence(line@, marker@, at as int) && first_occurrence(
                line@,
                marker@,
            ) == Some(at as int),
            None => first_occurrence(line@, marker@) is None,
        },
{
    if marker.len() > line.len() {
        return None;
    }
    let last = line.len() - marker.len();
    let mut at: usize = 0;
    loop
        invariant
            last == line@.len() - marker@.len(),
            at <= last,
            forall|j: int| j < at ==> !occurs_at(line@, marker@, j),
        decreases last - at,
    {
        if matches_at(line, marker, at) {
            proof {
                lemma_first_occurrence_is(line@, marker@, at as int);
            }
            return Some(at);
        }
        if at == last {
            return None;
        }
        at += 1;
    }
}

/// The index of the last occurrence of `marker` in `line`.
pub fn rfind(line: &[u8], marker: &[u8]) -> (found: Option<usize>)
    ensures
        match found {
            Some(at) => is_last_occurrence(line@, marker@, at as int) && last_occurrence(
                line@,
                marker@,
            ) == Some(at as int),
            None => last_occurrence(line@, marker@) is None,
        },
{
    if marker.len() > line.len() {
        return None;
    }
    let last = line.len() - marker.len();
    let mut at: usize = last;
    loop
        invariant
            last == line@.len() - marker@.len(),
            at <= last,
            forall|j: int| at < j ==> !occurs_at(line@, marker@, j),
        decreases at,
    {
        if matches_at(line, marker, at) {
            proof {
                lemma_last_occurrence_is(line@, marker@, at as int);
            }
            return Some(at);
        }
        if at == 0 {
            return None;
        }
        at -= 1;
    }
}

/// Whether `marker` occurs in `line`.
pub fn contains(line: &[u8], marker: &[u8]) -> (found: bool)
    ensures
        found == contains_marker(line@, marker@),
{
    find(line, marker).is_some()
}

/// What the extractor makes of one line.
pub struct Extraction {
    /// The comment text of the line, if it has any.
    pub comment: Option<Seq<u8>>,
    /// Whether the whole line was taken because the three kinds of marker
    /// all occur in it and are not resolved.
    pub fallback: bool,
    /// Whether the next line starts inside a multiline comment.
    pub inside: bool,
}

/// The text before the end marker at `close`, followed by the text from an
/// inline marker on, if one opens behind `close`.
pub open spec fn until_close(line: Seq<u8>, close: int, inline: Option<int>) -> Seq<u8> {
    match inline {
        Some(c) => if close < c {
            line.take(close) + line.skip(c)
        } else {
            line.take(close)
        },
        None => line.take(close),
    }
}

/// The text between a start marker at `open` and an end marker at `close`,
/// from the first byte of the start marker on. It is empty where the end
/// marker does not stand behind the start.
pub open spec fn between(line: Seq<u8>, open: int, close: int) -> Seq<u8> {
    if open <= close {
        line.subrange(open, close)
    } else {
        Seq::empty()
    }
}

/// The comment text of `line` in a language with markers `grammar`, where
/// `inside` says whether the line starts inside a multiline comment.
///
/// An empty line has no comment and changes nothing. Inside a multiline
/// comment the whole line is comment unless an end marker occurs; the last
/// one then closes the comment, and an inline marker behind it opens a new
/// one. Outside, an end marker without a start marker is read the same way.
/// A start marker without an end marker opens a comment that runs on; it or
/// an inline marker, whichever comes first, starts the comment text. A start
/// and an end marker enclose the comment. Where an inline marker occurs as
/// well, the whole line is taken and `fallback` is set.
pub open spec fn extract(line: Seq<u8>, grammar: Grammar, inside: bool) -> Extraction {
    let open = first_of(line, grammar.open);
    let close = last_of(line, grammar.close);
    let inline = first_of(line, grammar.inline);
    if line.len() == 0 {
        Extraction { comment: None, fallback: false, inside }
    } else if inside {
        match close {
            None => Extraction { comment: Some(line), fallback: false, inside: true },
            Some(r) => Extraction {
                comment: Some(until_close(line, r, inline)),
                fallback: false,
                inside: false,
            },
        }
    } else {
        match (open, close, inline) {
            (None, None, None) => Extraction { comment: None, fallback: false, inside: false },
            (None, None, Some(c)) => Extraction {
                comment: Some(line.skip(c)),
                fallback: false,
                inside: false,
            },
            (None, Some(r), _) => Extraction {
                comment: Some(until_close(line, r, inline)),
                fallback: false,
                inside: false,
            },
            (Some(l), None, None) => Extraction {
                comment: Some(line.skip(l)),
                fallback: false,
                inside: true,
            },
            (Some(l), None, Some(c)) => Extraction {
                comment: Some(line.skip(if l <= c { l } else { c })),
                fallback: false,
                inside: true,
            },
            (Some(l), Some(r), None) => Extraction {
                comment: Some(between(line, l, r)),
                fallback: false,
                inside: false,
            },
            (Some(_), Some(_), Some(_)) => Extraction {
                comment: Some(line),
                fallback: true,
                inside: false,
            },
        }
    }
}

/// Whether the line that follows `lines` starts inside a multiline comment,
/// where the first of `lines` starts outside one.
pub open spec fn inside_after(lines: Seq<Seq<u8>>, grammar: Grammar) -> bool
    decreases lines.len(),
{
    if lines.len() == 0 {
        false
    } else {
        extract(lines.last(), grammar, inside_after(lines.drop_last(), grammar)).inside
    }
}

/// Whether none of the markers of `grammar` occurs in `line`.
pub open spec fn has_no_marker(line: Seq<u8>, grammar: Grammar) -> bool {
    &&& first_of(line, grammar.open) is None
    &&& last_of(line, grammar.close) is None
    &&& first_of(line, grammar.inline) is None
}

/// In a language without any comment marker no line has a comment: outside
/// a multiline comment the extractor finds nothing and stays outside.
pub proof fn lemma_no_markers_no_comment(line: Seq<u8>, grammar: Grammar)
    requires
        grammar.inline is None,
        grammar.open is None,
        grammar.close is None,
    ensures
        extract(line, grammar, false).comment is None,
        !extract(line, grammar, false).inside,
        !extract(line, grammar, false).fallback,
{
}

/// A language without any comment marker never enters a multiline comment,
/// however many lines are read.
pub proof fn lemma_no_markers_stay_outside(lines: Seq<Seq<u8>>, grammar: Grammar)
    requires
        grammar.inline is None,
        grammar.open is None,
        grammar.close is None,
    ensures
        !inside_after(lines, grammar),
    decreases lines.len(),
{
    if lines.len() > 0 {
        lemma_no_markers_stay_outside(lines.drop_last(), grammar);
        lemma_no_markers_no_comment(lines.last(), grammar);
    }
}

/// A multiline comment that line `opened` opens stays open over lines
/// without markers: every line from `opened + 1` to `upto` starts inside
/// the comment.
pub proof fn lemma_comment_stays_open(
    lines: Seq<Seq<u8>>,
    grammar: Grammar,
    opened: int,
    upto: int,
)
    requires
        0 <= opened < upto <= lines.len(),
        inside_after(lines.take(opened + 1), grammar),
        forall|i: int| opened < i < upto ==> has_no_marker(#[trigger] lines[i], grammar),
    ensures
        inside_after(lines.take(upto), grammar),
    decreases upto - opened,
{
    if upto > opened + 1 {
        lemma_comment_stays_open(lines, grammar, opened, upto - 1);
        assert(lines.take(upto).drop_last() =~= lines.take(upto - 1));
        assert(lines.take(upto).last() == lines[upto - 1]);
        assert(has_no_marker(lines[upto - 1], grammar));
    }
}

/// A multiline comment that is opened on line `opened` and closed on the
/// later line `closed`, with no marker on the lines between them, is open at
/// the start of every line after `opened` up to and including `closed`, and
/// closed again after `closed`.
pub proof fn lemma_comment_round_trip(
    lines: Seq<Seq<u8>>,
    grammar: Grammar,
    opened: int,
    closed: int,
)
    requires
        0 <= opened < closed < lines.len(),
        !inside_after(lines.take(opened), grammar),
        inside_after(lines.take(opened + 1), grammar),
        forall|i: int| opened < i < closed ==> has_no_marker(#[trigger] lines[i], grammar),
        lines[closed].len() > 0,
        last_of(lines[closed], grammar.close) is Some,
    ensures
        forall|i: int| opened < i <= closed ==> inside_after(#[trigger] lines.take(i), grammar),
        !inside_after(lines.take(closed + 1), grammar),
{
    assert forall|i: int| opened < i <= closed implies inside_after(
        #[trigger] lines.take(i),
        grammar,
    ) by {
        lemma_comment_stays_open(lines, grammar, opened, i);
    }
    assert(lines.take(closed + 1).drop_last() =~= lines.take(closed));
    assert(lines.take(closed + 1).last() == lines[closed]);
}

/// A line opens a multiline comment exactly if it is not empty, starts
/// outside one, and holds a start marker but no end marker.
pub proof fn lemma_comment_opens(line: Seq<u8>, grammar: Grammar)
    ensures
        extract(line, grammar, false).inside <==> (line.len() > 0 && first_of(line, grammar.open)
            is Some && last_of(line, grammar.close) is None),
{
}

/// The comment text of one line.
#[derive(Debug, PartialEq, Eq)]
pub struct CommentSlice {
    /// The bytes of the line that are commentary.
    pub text: Vec<u8>,
    /// Whether the whole line was taken because a multiline start marker, a
    /// multiline end marker and an inline marker all occur in it. Such a line
    /// deserves a warning.
    pub fallback: bool,
}

/// The first occurrence in `line` of a marker that the language may not
/// have.
fn find_marker(line: &[u8], marker: Option<&str>) -> (found: Option<usize>)
    ensures
        match found {
            Some(at) => first_of(line@, marker_bytes(marker)) == Some(at as int) && at
                <= line@.len(),
            None => first_of(line@, marker_bytes(marker)) is None,
        },
{
    match marker {
        Some(text) => find(line, text.as_bytes()),
        None => None,
    }
}

/// The last occurrence in `line` of a marker that the language may not have.
fn rfind_marker(line: &[u8], marker: Option<&str>) -> (found: Option<usize>)
    ensures
        match found {
            Some(at) => last_of(line@, marker_bytes(marker)) == Some(at as int) && at
                <= line@.len(),
            None => last_of(line@, marker_bytes(marker)) is None,
        },
{
    match marker {
        Some(text) => rfind(line, text.as_bytes()),
        None => None,
    }
}

/// A copy of the bytes of `line` from `from` up to `to`, appended to `out`.
fn append_range(out: &mut Vec<u8>, line: &[u8], from: usize, to: usize)
    requires
        from <= to <= line@.len(),
    ensures
        final(out)@ == old(out)@ + line@.subrange(from as int, to as int),
{
    let mut i: usize = from;
    while i < to
        invariant
            from <= i <= to <= line@.len(),
            out@ == old(out)@ + line@.subrange(from as int, i as int),
        decreases to - i,
    {
        out.push(line[i]);
        i += 1;
        assert(out@ =~= old(out)@ + line@.subrange(from as int, i as int));
    }
    assert(out@ =~= old(out)@ + line@.subrange(from as int, to as int));
}

/// The bytes of `line` before `close`, and those from an inline marker
/// behind `close` on.
fn copy_until_close(line: &[u8], close: usize, inline: Option<usize>) -> (text: Vec<u8>)
    requires
        close <= line@.len(),
        inline matches Some(c) ==> c <= line@.len(),
    ensures
        text@ == until_close(
            line@,
            close as int,
            match inline {
                Some(c) => Some(c as int),
                None => None,
            },
        ),
{
    let mut text: Vec<u8> = Vec::new();
    append_range(&mut text, line, 0, close);
    assert(text@ =~= line@.take(close as int));
    match inline {
        Some(c) => {
            if close < c {
                append_range(&mut text, line, c, line.len());
                assert(text@ =~= line@.take(close as int) + line@.skip(c as int));
            }
        },
        None => {},
    }
    text
}

/// The bytes of `line` from `from` up to `to`.
fn copy_range(line: &[u8], from: usize, to: usize) -> (text: Vec<u8>)
    requires
        from <= to <= line@.len(),
    ensures
        text@ == line@.subrange(from as int, to as int),
{
    let mut text: Vec<u8> = Vec::new();
    append_range(&mut text, line, from, to);
    assert(text@ =~= line@.subrange(from as int, to as int));
    text
}

/// Extracts the comment text of `line`, a line of a file of the language
/// `filetype`. `in_multiline_comment` says whether the line starts inside a
/// multiline comment, and is set to whether the next line does.
pub fn extract_comment(line: &[u8], filetype: &FileType, in_multiline_comment: &mut bool) -> (slice:
    Option<CommentSlice>)
    ensures
        *final(in_multiline_comment) == extract(
            line@,
            filetype.grammar(),
            *old(in_multiline_comment),
        ).inside,
        match slice {
            Some(found) => extract(line@, filetype.grammar(), *old(in_multiline_comment)).comment
                == Some(found.text@) && found.fallback == extract(
                line@,
                filetype.grammar(),
                *old(in_multiline_comment),
            ).fallback,
            None => extract(line@, filetype.grammar(), *old(in_multiline_comment)).comment
                is None,
        },
{
    if line.len() == 0 {
        return None;
    }
    let (inline_comment_format, multiline_comment_start_format, multiline_comment_end_format) =
        filetype.destructure();
    let multiline_start_position = find_marker(line, multiline_comment_start_format);
    let multiline_end_position = rfind_marker(line, multiline_comment_end_format);
    let comment_position = find_marker(line, inline_comment_format);
    let n = line.len();
    assert(line@.skip(0) =~= line@);
    assert(line@.subrange(0, n as int) =~= line@);
    if *in_multiline_comment {
        match multiline_end_position {
            None => Some(CommentSlice { text: copy_range(line, 0, n), fallback: false }),
            Some(multi_right) => {
                *in_multiline_comment = false;
                Some(
                    CommentSlice {
                        text: copy_until_close(line, multi_right, comment_position),
                        fallback: false,
                    },
                )
            },
        }
    } else {
        match (multiline_start_position, multiline_end_position, comment_position) {
            (None, None, None) => None,
            (None, None, Some(comment_start)) => {
                assert(line@.skip(comment_start as int) =~= line@.subrange(
                    comment_start as int,
                    n as int,
                ));
                Some(CommentSlice { text: copy_range(line, comment_start, n), fallback: false })
            },
            (None, Some(multi_right), _) => Some(
                CommentSlice {
                    text: copy_until_close(line, multi_right, comment_position),
                    fallback: false,
                },
            ),
            (Some(multi_left), None, None) => {
                *in_multiline_comment = true;
                assert(line@.skip(multi_left as int) =~= line@.subrange(
                    multi_left as int,
                    n as int,
                ));
                Some(CommentSlice { text: copy_range(line, multi_left, n), fallback: false })
            },
            (Some(multi_left), None, Some(comment_start)) => {
                *in_multiline_comment = true;
                let from = if multi_left <= comment_start {
                    multi_left
                } else {
                    comment_start
                };
                assert(line@.skip(from as int) =~= line@.subrange(from as int, n as int));
                Some(CommentSlice { text: copy_range(line, from, n), fallback: false })
            },
            (Some(multi_left), Some(multi_right), None) => {
                let text = if multi_left <= multi_right {
                    copy_range(line, multi_left, multi_right)
                } else {
                    Vec::new()
                };
                Some(CommentSlice { text, fallback: false })
            },
            (Some(_), Some(_), Some(_)) => Some(
                CommentSlice { text: copy_range(line, 0, n), fallback: true },
            ),
        }
    }
}

} // verus!
