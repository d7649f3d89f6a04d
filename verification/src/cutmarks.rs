//! The frame numbers that the analyzer writes, one to a line.

use vstd::prelude::*;
use crate::number::{parse_unsigned_in, unsigned_of};

verus! {

/// The byte that ends a line.
pub const NEWLINE: u8 = 10;

/// The byte that may stand before the newline at the end of a line.
pub const CARRIAGE_RETURN: u8 = 13;

/// `line` without the carriage return at its end, if it has one.
pub open spec fn trimmed(line: Seq<u8>) -> Seq<u8> {
    if line.len() > 0 && line.last() == CARRIAGE_RETURN {
        line.drop_last()
    } else {
        line
    }
}

/// The frame number that a line writes: one or more digits, a plus sign before them
/// allowed, the number no more than `u64::MAX`. Any other line writes none.
pub open spec fn frame_of(line: Seq<u8>) -> Option<u64> {
    unsigned_of(line)
}

/// The length of the first line of `text`: the position of its first newline, or its
/// length where it has none.
pub open spec fn first_line_len(text: Seq<u8>) -> int
    decreases text.len(),
{
    if text.len() == 0 || text[0] == NEWLINE {
        0
    } else {
        1 + first_line_len(text.drop_first())
    }
}

/// The lines of `text`, without the newline that ends them and without a carriage
/// return before that newline. A last line that no newline ends keeps what it holds,
/// and a newline at the very end begins no further line.
pub open spec fn lines_of(text: Seq<u8>) -> Seq<Seq<u8>>
    decreases text.len(),
    via lines_of_decreases
{
    if text.len() == 0 {
        Seq::<Seq<u8>>::empty()
    } else {
        let k = first_line_len(text);
        seq![
            if k < text.len() {
                trimmed(text.take(k))
            } else {
                text.take(k)
            },
        ] + lines_of(
            if k < text.len() {
                text.skip(k + 1)
            } else {
                Seq::<u8>::empty()
            },
        )
    }
}

#[via_fn]
proof fn lines_of_decreases(text: Seq<u8>) {
    lemma_first_line_len(text);
}

/// The first line ends in the text, holds no newline, and a newline follows it unless
/// the text ends there.
pub proof fn lemma_first_line_len(text: Seq<u8>)
    ensures
        0 <= first_line_len(text) <= text.len(),
        forall|i: int| 0 <= i < first_line_len(text) ==> text[i] != NEWLINE,
        first_line_len(text) < text.len() ==> text[first_line_len(text)] == NEWLINE,
    decreases text.len(),
{
    if text.len() > 0 && text[0] != NEWLINE {
        let rest = text.drop_first();
        lemma_first_line_len(rest);
        assert forall|i: int| 0 <= i < first_line_len(text) implies text[i] != NEWLINE by {
            if i > 0 {
                assert(rest[i - 1] == text[i]);
            }
        }
        if first_line_len(text) < text.len() {
            assert(rest[first_line_len(rest)] == text[first_line_len(text)]);
        }
    }
}

/// A position before which no newline stands, and at which one stands or the text
/// ends, is the length of the first line.
pub proof fn lemma_first_line_len_is(text: Seq<u8>, k: int)
    requires
        0 <= k <= text.len(),
        forall|i: int| 0 <= i < k ==> text[i] != NEWLINE,
        k < text.len() ==> text[k] == NEWLINE,
    ensures
        first_line_len(text) == k,
{
    lemma_first_line_len(text);
    let c = first_line_len(text);
    if c < k {
        assert(text[c] == NEWLINE);
    } else if c > k {
        assert(text[k] != NEWLINE);
    }
}

/// The frame numbers that `lines` write, or the position of the first line that writes
/// none.
pub open spec fn frames_of(lines: Seq<Seq<u8>>) -> Result<Seq<u64>, nat>
    decreases lines.len(),
{
    if lines.len() == 0 {
        Ok(Seq::<u64>::empty())
    } else {
        match frames_of(lines.drop_last()) {
            Err(at) => Err(at),
            Ok(frames) => match frame_of(lines.last()) {
                Some(frame) => Ok(frames.push(frame)),
                None => Err((lines.len() - 1) as nat),
            },
        }
    }
}

/// Where the first lines fail, all lines fail at the same line.
pub proof fn lemma_frames_of_fails(head: Seq<Seq<u8>>, tail: Seq<Seq<u8>>)
    requires
        frames_of(head) is Err,
    ensures
        frames_of(head + tail) == frames_of(head),
    decreases tail.len(),
{
    if tail.len() == 0 {
        assert(head + tail =~= head);
    } else {
        lemma_frames_of_fails(head, tail.drop_last());
        assert((head + tail).drop_last() =~= head + tail.drop_last());
    }
}

/// A line that writes no frame number: its position, counted from 0.
#[derive(Debug, Copy, Clone, PartialEq, Eq)]
pub struct BadLine {
    pub line: usize,
}

/// The end of the line that starts at `start`.
fn line_end(text: &[u8], start: usize) -> (end: usize)
    requires
        start <= text@.len(),
    ensures
        start <= end <= text@.len(),
        end - start == first_line_len(text@.skip(start as int)),
{
    let mut end: usize = start;
    while end < text.len() && text[end] != NEWLINE
        invariant
            start <= end <= text@.len(),
            forall|i: int| start <= i < end ==> text@[i] != NEWLINE,
        decreases text@.len() - end,
    {
        end += 1;
    }
    proof {
        lemma_first_line_len_is(text@.skip(start as int), end - start);
    }
    end
}

/// The frame number that the line from `start` to `end` writes; `ended` says whether
/// a newline ends it.
fn parse_line(text: &[u8], start: usize, end: usize, ended: bool) -> (r: Option<u64>)
    requires
        start <= end <= text@.len(),
    ensures
        r == frame_of(
            if ended {
                trimmed(text@.subrange(start as int, end as int))
            } else {
                text@.subrange(start as int, end as int)
            },
        ),
{
    let ghost line = text@.subrange(start as int, end as int);
    let stop = if ended && end > start && text[end - 1] == CARRIAGE_RETURN {
        end - 1
    } else {
        end
    };
    assert(ended ==> text@.subrange(start as int, stop as int) =~= trimmed(line));
    parse_unsigned_in(text, start, stop)
}

/// Reads the frame numbers that an analysis has written, one to a line, in their
/// order. It fails at the first line that writes no frame number.
pub fn parse_frames(text: &[u8]) -> (r: Result<Vec<u64>, BadLine>)
    ensures
        match r {
            Ok(frames) => frames_of(lines_of(text@)) == Ok::<Seq<u64>, nat>(frames@),
            Err(bad) => frames_of(lines_of(text@)) == Err::<Seq<u64>, nat>(bad.line as nat),
        },
{
    let mut frames: Vec<u64> = Vec::new();
    let mut start: usize = 0;
    let ghost mut done: Seq<Seq<u8>> = Seq::empty();
    proof {
        assert(text@.skip(0) =~= text@);
        assert(done + lines_of(text@) =~= lines_of(text@));
    }
    while start < text.len()
        invariant
            start <= text@.len(),
            lines_of(text@) == done + lines_of(text@.skip(start as int)),
            frames_of(done) == Ok::<Seq<u64>, nat>(frames@),
            done.len() == frames@.len(),
            frames@.len() <= start,
        decreases text@.len() - start,
    {
        let end = line_end(text, start);
        let ghost rest = text@.skip(start as int);
        let ghost line = if end < text@.len() {
            trimmed(rest.take(end - start))
        } else {
            rest.take(end - start)
        };
        let ghost after = if end < text@.len() {
            rest.skip(end - start + 1)
        } else {
            Seq::<u8>::empty()
        };
        proof {
            assert(rest.take(end - start) =~= text@.subrange(start as int, end as int));
            assert(lines_of(rest) == seq![line] + lines_of(after));
            assert(done + (seq![line] + lines_of(after)) =~= done.push(line) + lines_of(after));
            assert(done.push(line).drop_last() =~= done);
        }
        match parse_line(text, start, end, end < text.len()) {
            Some(frame) => {
                frames.push(frame);
            },
            None => {
                proof {
                    lemma_frames_of_fails(done.push(line), lines_of(after));
                }
                return Err(BadLine { line: frames.len() });
            },
        }
        proof {
            done = done.push(line);
            if end < text@.len() {
                assert(after =~= text@.skip(end + 1));
            } else {
                assert(after =~= text@.skip(end as int));
            }
        }
        start = if end < text.len() {
            end + 1
        } else {
            end
        };
    }
    proof {
        assert(text@.skip(start as int) =~= Seq::<u8>::empty());
        assert(done + Seq::<Seq<u8>>::empty() =~= done);
    }
    Ok(frames)
}

} // verus!
