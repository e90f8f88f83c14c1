//! Line arithmetic over a character buffer.
//!
//! The buffer is a sequence of characters in which `'\n'` terminates a
//! line.  Every offset `pos` in `[0, len]` belongs to exactly one line;
//! an offset sitting exactly at a line's end boundary belongs to that
//! line, not to the following one.

use vstd::prelude::*;

verus! {

/// Start offset of the line containing `pos`: the offset just after the
/// last `'\n'` strictly before `pos`, or `0` when there is none.
pub open spec fn line_start_of(s: Seq<char>, pos: int) -> int
    decreases pos,
{
    if pos <= 0 {
        0
    } else if s[pos - 1] == '\n' {
        pos
    } else {
        line_start_of(s, pos - 1)
    }
}

/// End offset of the line containing `pos`: the offset of the first
/// `'\n'` at or after `pos`, or the buffer length when there is none.
pub open spec fn line_end_of(s: Seq<char>, pos: int) -> int
    decreases s.len() - pos,
{
    if pos >= s.len() {
        s.len() as int
    } else if s[pos] == '\n' {
        pos
    } else {
        line_end_of(s, pos + 1)
    }
}

/// Column of `pos` within its line.
pub open spec fn column_of(s: Seq<char>, pos: int) -> int {
    pos - line_start_of(s, pos)
}

/// The line start never lies beyond `pos` and is never negative.
pub proof fn lemma_line_start_bounds(s: Seq<char>, pos: int)
    requires
        0 <= pos,
    ensures
        0 <= line_start_of(s, pos) <= pos,
    decreases pos,
{
    if pos > 0 && s[pos - 1] != '\n' {
        lemma_line_start_bounds(s, pos - 1);
    }
}

/// The line end never lies before `pos` and never beyond the buffer.
pub proof fn lemma_line_end_bounds(s: Seq<char>, pos: int)
    requires
        0 <= pos <= s.len(),
    ensures
        pos <= line_end_of(s, pos) <= s.len(),
    decreases s.len() - pos,
{
    if pos < s.len() && s[pos] != '\n' {
        lemma_line_end_bounds(s, pos + 1);
    }
}

/// A positive line start sits just after a newline.
pub proof fn lemma_line_start_char(s: Seq<char>, pos: int)
    requires
        0 <= pos,
    ensures
        line_start_of(s, pos) > 0 ==> s[line_start_of(s, pos) - 1] == '\n',
    decreases pos,
{
    if pos > 0 && s[pos - 1] != '\n' {
        lemma_line_start_char(s, pos - 1);
    }
}

/// A line end short of the buffer sits on a newline.
pub proof fn lemma_line_end_char(s: Seq<char>, pos: int)
    requires
        0 <= pos <= s.len(),
    ensures
        line_end_of(s, pos) < s.len() ==> s[line_end_of(s, pos)] == '\n',
    decreases s.len() - pos,
{
    if pos < s.len() && s[pos] != '\n' {
        lemma_line_end_char(s, pos + 1);
    }
}

/// No character between the line start and `pos` is a newline.
pub proof fn lemma_no_newline_before(s: Seq<char>, pos: int, k: int)
    requires
        0 <= pos,
        line_start_of(s, pos) <= k < pos,
    ensures
        s[k] != '\n',
    decreases pos,
{
    lemma_line_start_bounds(s, pos);
    if k < pos - 1 {
        lemma_no_newline_before(s, pos - 1, k);
    }
}

/// No character between `pos` and the line end is a newline.
pub proof fn lemma_no_newline_after(s: Seq<char>, pos: int, k: int)
    requires
        0 <= pos <= s.len(),
        pos <= k < line_end_of(s, pos),
    ensures
        s[k] != '\n',
    decreases s.len() - pos,
{
    lemma_line_end_bounds(s, pos);
    if k > pos {
        lemma_no_newline_after(s, pos + 1, k);
    }
}

/// Start offset of the line containing `pos`, computed by scanning
/// backwards for the nearest newline.
pub fn line_start(text: &Vec<char>, pos: usize) -> (r: usize)
    requires
        pos <= text@.len(),
    ensures
        r == line_start_of(text@, pos as int),
        r <= pos,
{
    let mut i: usize = pos;
    while i > 0 && text[i - 1] != '\n'
        invariant
            0 <= i <= pos <= text@.len(),
            line_start_of(text@, pos as int) == line_start_of(text@, i as int),
        decreases i,
    {
        i = i - 1;
    }
    proof {
        lemma_line_start_bounds(text@, pos as int);
    }
    i
}

/// End offset of the line containing `pos`, computed by scanning
/// forwards for the nearest newline.
pub fn line_end(text: &Vec<char>, pos: usize) -> (r: usize)
    requires
        pos <= text@.len(),
    ensures
        r == line_end_of(text@, pos as int),
        pos <= r <= text@.len(),
{
    let mut i: usize = pos;
    while i < text.len() && text[i] != '\n'
        invariant
            pos <= i <= text@.len(),
            line_end_of(text@, pos as int) == line_end_of(text@, i as int),
        decreases text@.len() - i,
    {
        i = i + 1;
    }
    proof {
        lemma_line_end_bounds(text@, pos as int);
    }
    i
}

} // verus!
