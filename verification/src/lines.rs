//! Splitting the raw bytes of a file into lines.
//!
//! A line ends at a line feed, at a carriage return directly followed by a
//! line feed (the pair is one terminator), or at a lone carriage return. What
//! follows the last terminator is a final line if it is not empty. Every other
//! byte is data and is handed on untouched.

use vstd::prelude::*;

verus! {

/// The line feed byte.
pub const LF: u8 = 10;

/// The carriage return byte.
pub const CR: u8 = 13;

/// Whether `b` ends a line.
pub open spec fn is_terminator(b: u8) -> bool {
    b == LF || b == CR
}

/// Whether `text` holds no terminator byte, so that it can be one line.
pub open spec fn plain_text(text: Seq<u8>) -> bool {
    forall|i: int| 0 <= i < text.len() ==> !is_terminator(#[trigger] text[i])
}

/// The index of the first terminator byte of `s`, or `s.len()` if it has none.
pub open spec fn first_break(s: Seq<u8>) -> int
    decreases s.len(),
{
    if s.len() == 0 || is_terminator(s[0]) {
        0
    } else {
        1 + first_break(s.skip(1))
    }
}

/// The number of bytes that the terminator at index `at` of `s` takes: two
/// for a carriage return directly followed by a line feed, else one.
pub open spec fn break_len(s: Seq<u8>, at: int) -> int {
    if s[at] == CR && at + 1 < s.len() && s[at + 1] == LF {
        2
    } else {
        1
    }
}

/// The text of the first line of `s`, without its terminator.
pub open spec fn first_line(s: Seq<u8>) -> Seq<u8> {
    s.take(first_break(s))
}

/// The number of bytes of `s` that its first line takes, terminator included.
pub open spec fn first_line_span(s: Seq<u8>) -> int {
    let n = first_break(s);
    if n >= s.len() {
        s.len() as int
    } else {
        n + break_len(s, n)
    }
}

/// The lines of `s`, in order, each without its terminator.
pub open spec fn split_lines(s: Seq<u8>) -> Seq<Seq<u8>>
    decreases s.len(),
{
    if s.len() == 0 {
        Seq::empty()
    } else {
        proof {
            lemma_first_break_bounds(s);
        }
        seq![first_line(s)] + split_lines(s.skip(first_line_span(s)))
    }
}

/// `first_break` lies inside the sequence, no byte before it is a terminator,
/// and it is either the end or the place of a terminator.
pub proof fn lemma_first_break_bounds(s: Seq<u8>)
    ensures
        0 <= first_break(s) <= s.len(),
        plain_text(first_line(s)),
        first_break(s) < s.len() ==> is_terminator(s[first_break(s)]),
        s.len() > 0 ==> 0 < first_line_span(s) <= s.len(),
    decreases s.len(),
{
    if s.len() == 0 || is_terminator(s[0]) {
    } else {
        let t = s.skip(1);
        lemma_first_break_bounds(t);
        assert forall|i: int| 0 <= i < first_line(s).len() implies !is_terminator(
            #[trigger] first_line(s)[i],
        ) by {
            if i > 0 {
                assert(first_line(s)[i] == first_line(t)[i - 1]);
            }
        }
    }
}

/// Any index with the three properties of `first_break` is `first_break`.
pub proof fn lemma_first_break_is(s: Seq<u8>, n: int)
    requires
        0 <= n <= s.len(),
        forall|i: int| 0 <= i < n ==> !is_terminator(#[trigger] s[i]),
        n < s.len() ==> is_terminator(s[n]),
    ensures
        first_break(s) == n,
    decreases s.len(),
{
    if n == 0 {
    } else {
        assert(!is_terminator(s[0]));
        let t = s.skip(1);
        assert forall|i: int| 0 <= i < n - 1 implies !is_terminator(#[trigger] t[i]) by {
            assert(t[i] == s[i + 1]);
        }
        lemma_first_break_is(t, n - 1);
    }
}

/// Whether `e` is one of the three terminators: a line feed, a carriage
/// return followed by a line feed, or a carriage return alone.
pub open spec fn is_line_ending(e: Seq<u8>) -> bool {
    e == seq![LF] || e == seq![CR, LF] || e == seq![CR]
}

/// The bytes of a file that holds `lines` in order, line `i` being followed
/// by the terminator `endings[i]`.
pub open spec fn join_lines(lines: Seq<Seq<u8>>, endings: Seq<Seq<u8>>) -> Seq<u8>
    decreases lines.len(),
{
    if lines.len() == 0 {
        Seq::empty()
    } else {
        join_lines(lines.drop_last(), endings.drop_last()) + lines.last() + endings.last()
    }
}

/// Whether `lines` with `endings` can be told apart again once written out:
/// every line is free of terminator bytes, every ending is a terminator, and
/// no line that ends in a lone carriage return is followed by an empty line
/// that ends in a line feed (the two terminators would read as one).
pub open spec fn readable_back(lines: Seq<Seq<u8>>, endings: Seq<Seq<u8>>) -> bool {
    &&& lines.len() == endings.len()
    &&& forall|i: int| 0 <= i < lines.len() ==> plain_text(#[trigger] lines[i])
    &&& forall|i: int| 0 <= i < endings.len() ==> is_line_ending(#[trigger] endings[i])
    &&& forall|i: int|
        0 <= i < lines.len() - 1 ==> !(#[trigger] endings[i] == seq![CR] && lines[i + 1].len() == 0
            && endings[i + 1] == seq![LF])
}

/// A text without terminator bytes reads as one line, whether a terminator
/// follows it or, if it is not empty, nothing does.
pub proof fn lemma_split_one_line(text: Seq<u8>, ending: Seq<u8>)
    requires
        plain_text(text),
        is_line_ending(ending) || (ending.len() == 0 && text.len() > 0),
    ensures
        split_lines(text + ending) == seq![text],
{
    let s = text + ending;
    let n = text.len() as int;
    assert forall|i: int| 0 <= i < n implies !is_terminator(#[trigger] s[i]) by {
        assert(s[i] == text[i]);
    }
    if ending.len() > 0 {
        assert(s[n] == ending[0]);
    }
    lemma_first_break_is(s, n);
    assert(first_line(s) =~= text);
    if ending.len() == 2 {
        assert(s[n + 1] == ending[1]);
    }
    assert(first_line_span(s) == s.len());
    assert(s.skip(first_line_span(s)) =~= Seq::<u8>::empty());
    assert(split_lines(s.skip(first_line_span(s))) =~= Seq::<Seq<u8>>::empty());
    assert(split_lines(s) =~= seq![text]);
}

/// Where `head` is empty or ends in a terminator, the lines of `head`
/// followed by `rest` are the lines of `head` followed by the lines of
/// `rest`; except where `head` ends in a carriage return and `rest` starts
/// with a line feed, which together are one terminator.
pub proof fn lemma_split_concat(head: Seq<u8>, rest: Seq<u8>)
    requires
        head.len() == 0 || is_terminator(head.last()),
        !(head.len() > 0 && head.last() == CR && rest.len() > 0 && rest[0] == LF),
    ensures
        split_lines(head + rest) == split_lines(head) + split_lines(rest),
    decreases head.len(),
{
    let s = head + rest;
    if head.len() == 0 {
        assert(s =~= rest);
        assert(split_lines(head) + split_lines(rest) =~= split_lines(rest));
    } else {
        lemma_first_break_bounds(head);
        let n = first_break(head);
        if n >= head.len() {
            assert(first_line(head)[head.len() - 1] == head.last());
            assert(false);
        }
        assert forall|i: int| 0 <= i < n implies !is_terminator(#[trigger] s[i]) by {
            assert(s[i] == head[i]);
            assert(first_line(head)[i] == head[i]);
        }
        assert(s[n] == head[n]);
        lemma_first_break_is(s, n);
        if n + 1 < head.len() {
            assert(s[n + 1] == head[n + 1]);
        } else if rest.len() > 0 {
            assert(s[n + 1] == rest[0]);
        }
        let span = first_line_span(head);
        assert(first_line_span(s) == span);
        assert(first_line(s) =~= first_line(head));
        let tail = head.skip(span);
        assert(s.skip(span) =~= tail + rest);
        if tail.len() > 0 {
            assert(tail.last() == head.last());
        }
        lemma_split_concat(tail, rest);
        assert(split_lines(s) =~= split_lines(head) + split_lines(rest));
    }
}

/// What `join_lines` writes is empty or ends in a terminator, and it ends
/// in a carriage return only if the last ending is a lone carriage return.
pub proof fn lemma_join_ends_in_terminator(lines: Seq<Seq<u8>>, endings: Seq<Seq<u8>>)
    requires
        lines.len() == endings.len(),
        forall|i: int| 0 <= i < endings.len() ==> is_line_ending(#[trigger] endings[i]),
    ensures
        lines.len() == 0 ==> join_lines(lines, endings).len() == 0,
        lines.len() > 0 ==> join_lines(lines, endings).len() > 0 && is_terminator(
            join_lines(lines, endings).last(),
        ) && (join_lines(lines, endings).last() == CR ==> endings.last() == seq![CR]),
{
    if lines.len() > 0 {
        let e = endings.last();
        assert(is_line_ending(e));
        let j = join_lines(lines, endings);
        assert(j.last() == e.last());
        if e.last() == CR {
            assert(e =~= seq![CR]);
        }
    }
}

/// Reading back what was written gives the lines that were written: no line
/// is lost, none is split, and no empty line appears after the last
/// terminator.
pub proof fn lemma_split_join(lines: Seq<Seq<u8>>, endings: Seq<Seq<u8>>)
    requires
        readable_back(lines, endings),
    ensures
        split_lines(join_lines(lines, endings)) == lines,
    decreases lines.len(),
{
    if lines.len() == 0 {
        assert(split_lines(join_lines(lines, endings)) =~= lines);
    } else {
        let front = lines.drop_last();
        let front_endings = endings.drop_last();
        let k = lines.len() - 1;
        assert forall|i: int| 0 <= i < front.len() - 1 implies !(#[trigger] front_endings[i]
            == seq![CR] && front[i + 1].len() == 0 && front_endings[i + 1] == seq![LF]) by {
            assert(front_endings[i] == endings[i]);
            assert(front[i + 1] == lines[i + 1]);
            assert(front_endings[i + 1] == endings[i + 1]);
        }
        assert forall|i: int| 0 <= i < front.len() implies plain_text(#[trigger] front[i]) by {
            assert(front[i] == lines[i]);
        }
        assert forall|i: int| 0 <= i < front_endings.len() implies is_line_ending(
            #[trigger] front_endings[i],
        ) by {
            assert(front_endings[i] == endings[i]);
        }
        lemma_split_join(front, front_endings);
        lemma_join_ends_in_terminator(front, front_endings);
        let head = join_lines(front, front_endings);
        let rest = lines[k] + endings[k];
        assert(plain_text(lines[k]));
        assert(is_line_ending(endings[k]));
        if head.len() > 0 && head.last() == CR {
            assert(front_endings.last() == endings[k - 1]);
            if lines[k].len() == 0 {
                assert(rest[0] == endings[k][0]);
                if rest[0] == LF {
                    assert(endings[k] =~= seq![LF]);
                    assert(false);
                }
            } else {
                assert(rest[0] == lines[k][0]);
            }
        }
        lemma_split_concat(head, rest);
        lemma_split_one_line(lines[k], endings[k]);
        assert(join_lines(lines, endings) =~= head + rest);
        assert(split_lines(join_lines(lines, endings)) =~= lines);
    }
}

/// Files that hold the same lines give the same lines, whichever of the
/// three terminators ends each of them, one convention throughout or mixed.
pub proof fn lemma_line_endings_do_not_matter(
    lines: Seq<Seq<u8>>,
    endings_a: Seq<Seq<u8>>,
    endings_b: Seq<Seq<u8>>,
)
    requires
        readable_back(lines, endings_a),
        readable_back(lines, endings_b),
    ensures
        split_lines(join_lines(lines, endings_a)) == split_lines(join_lines(lines, endings_b)),
{
    lemma_split_join(lines, endings_a);
    lemma_split_join(lines, endings_b);
}

/// A file that ends in a terminator has exactly the lines that it
/// terminates, with no empty line after them; a file that goes on after its
/// last terminator has that remainder, unchanged, as its last line.
pub proof fn lemma_last_line(lines: Seq<Seq<u8>>, endings: Seq<Seq<u8>>, partial: Seq<u8>)
    requires
        readable_back(lines, endings),
        plain_text(partial),
        partial.len() > 0,
    ensures
        split_lines(join_lines(lines, endings)).len() == lines.len(),
        split_lines(join_lines(lines, endings) + partial) == lines.push(partial),
{
    lemma_split_join(lines, endings);
    lemma_join_ends_in_terminator(lines, endings);
    let head = join_lines(lines, endings);
    lemma_split_concat(head, partial);
    lemma_split_one_line(partial, Seq::empty());
    assert(partial + Seq::<u8>::empty() =~= partial);
    assert(lines + seq![partial] =~= lines.push(partial));
}

/// A forward-only reader that hands out the lines of a byte buffer one by
/// one. It looks at most one byte ahead, to tell a carriage return that is
/// followed by a line feed from one that stands alone.
pub struct LineSource<'a> {
    bytes: &'a [u8],
    byte_location: usize,
}

impl<'a> LineSource<'a> {
    #[verifier::type_invariant]
    spec fn in_bounds(self) -> bool {
        self.byte_location <= self.bytes@.len()
    }

    /// The whole buffer that the reader was made for.
    pub closed spec fn buffer(&self) -> Seq<u8> {
        self.bytes@
    }

    /// The number of bytes that have been consumed.
    pub closed spec fn position(&self) -> int {
        self.byte_location as int
    }

    /// The bytes that have not been consumed yet.
    pub open spec fn remaining(&self) -> Seq<u8> {
        self.buffer().skip(self.position())
    }

    /// A reader at the start of `bytes`.
    pub fn new(bytes: &'a [u8]) -> (source: Self)
        ensures
            source.buffer() == bytes@,
            source.position() == 0,
            source.remaining() == bytes@,
    {
        LineSource { bytes, byte_location: 0 }
    }

    /// The next line, without its terminator, or `None` when every byte has
    /// been consumed. The reader moves past the line and its terminator.
    pub fn next_line(&mut self) -> (line: Option<Vec<u8>>)
        ensures
            final(self).buffer() == old(self).buffer(),
            0 <= old(self).position() <= final(self).position() <= old(self).buffer().len(),
            old(self).remaining().len() == 0 ==> line is None && final(self).position() == old(
                self,
            ).position(),
            old(self).remaining().len() > 0 ==> line is Some && line->0@ == first_line(
                old(self).remaining(),
            ) && final(self).position() == old(self).position() + first_line_span(
                old(self).remaining(),
            ),
            final(self).remaining() == old(self).remaining().skip(
                first_line_span(old(self).remaining()),
            ),
            split_lines(old(self).remaining()) == match line {
                Some(text) => seq![text@] + split_lines(final(self).remaining()),
                None => Seq::empty(),
            },
    {
        proof {
            use_type_invariant(&*self);
        }
        let bytes = self.bytes;
        let start = self.byte_location;
        let ghost rest = bytes@.skip(start as int);
        if start >= bytes.len() {
            assert(rest.len() == 0);
            assert(rest.skip(first_line_span(rest)) =~= rest);
            return None;
        }
        let mut built_line: Vec<u8> = Vec::new();
        let mut location = start;
        while location < bytes.len() && bytes[location] != LF && bytes[location] != CR
            invariant
                start <= location <= bytes@.len(),
                built_line@ == bytes@.subrange(start as int, location as int),
                forall|i: int| start <= i < location ==> !is_terminator(#[trigger] bytes@[i]),
            decreases bytes@.len() - location,
        {
            built_line.push(bytes[location]);
            location += 1;
            assert(built_line@ =~= bytes@.subrange(start as int, location as int));
        }
        let ghost n = location - start;
        proof {
            assert forall|i: int| 0 <= i < n implies !is_terminator(#[trigger] rest[i]) by {
                assert(rest[i] == bytes@[start + i]);
            }
            lemma_first_break_is(rest, n);
            assert(built_line@ =~= first_line(rest));
        }
        let next = if location >= bytes.len() {
            location
        } else if bytes[location] == CR && location + 1 < bytes.len() && bytes[location + 1] == LF {
            location + 2
        } else {
            location + 1
        };
        proof {
            assert(next - start == first_line_span(rest));
            assert(bytes@.skip(next as int) =~= rest.skip(first_line_span(rest)));
        }
        self.byte_location = next;
        Some(built_line)
    }
}

} // verus!
