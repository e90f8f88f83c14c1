//! Caret navigation targets: pure offset arithmetic over the buffer's
//! line structure.
//!
//! Horizontal moves clamp at the buffer boundaries.  Vertical moves keep
//! the caret's column, clamped to the destination line's length, and are
//! no-ops when no destination line exists.  Home and End resolve to the
//! exact boundaries of the line containing the caret.

use vstd::prelude::*;
use crate::lines::{line_start_of, line_end_of, column_of, line_start, line_end,
    lemma_line_start_bounds, lemma_no_newline_before, lemma_no_newline_after,
    lemma_line_start_char, lemma_line_end_char};

verus! {

/// If no character in `[a, q)` is a newline and `a` starts a line, then
/// `a` is the line start of every offset up to `q`.
pub proof fn lemma_start_reach(s: Seq<char>, a: int, q: int)
    requires
        0 <= a <= q,
        forall|k: int| a <= k < q ==> s[k] != '\n',
        a == 0 || s[a - 1] == '\n',
    ensures
        line_start_of(s, q) == a,
    decreases q - a,
{
    if q > a {
        lemma_start_reach(s, a, q - 1);
    }
}

/// If no character in `[q, r)` is a newline and `r` ends a line, then
/// `r` is the line end of every offset from `q` on.
pub proof fn lemma_end_reach(s: Seq<char>, q: int, r: int)
    requires
        0 <= q <= r <= s.len(),
        forall|k: int| q <= k < r ==> s[k] != '\n',
        r == s.len() || s[r] == '\n',
    ensures
        line_end_of(s, q) == r,
    decreases r - q,
{
    if q < r {
        lemma_end_reach(s, q + 1, r);
    }
}

/// One step left, clamped at the buffer start.
pub fn left_target(pos: usize) -> (r: Option<usize>)
    ensures
        r == if pos > 0 {
            Some((pos - 1) as usize)
        } else {
            None::<usize>
        },
{
    if pos > 0 {
        Some(pos - 1)
    } else {
        None
    }
}

/// One step right, clamped at the buffer end.
pub fn right_target(text: &Vec<char>, pos: usize) -> (r: Option<usize>)
    requires
        pos <= text@.len(),
    ensures
        r == if pos < text@.len() {
            Some((pos + 1) as usize)
        } else {
            None::<usize>
        },
{
    if pos < text.len() {
        Some(pos + 1)
    } else {
        None
    }
}

/// The start boundary of the line containing `pos`; an offset exactly at
/// a line's end belongs to that line.
pub fn home_target(text: &Vec<char>, pos: usize) -> (r: usize)
    requires
        pos <= text@.len(),
    ensures
        r == line_start_of(text@, pos as int),
        r <= pos,
{
    line_start(text, pos)
}

/// The end boundary of the line containing `pos`, under the same
/// tie-break.
pub fn end_target(text: &Vec<char>, pos: usize) -> (r: usize)
    requires
        pos <= text@.len(),
    ensures
        r == line_end_of(text@, pos as int),
        pos <= r <= text@.len(),
{
    line_end(text, pos)
}

/// The move up from `pos`: the offset in the previous line at the old
/// column clamped to that line's length, or no move on the first line.
pub fn up_target(text: &Vec<char>, pos: usize) -> (r: Option<usize>)
    requires
        pos <= text@.len(),
    ensures
        ({
            let s = text@;
            let cur_start = line_start_of(s, pos as int);
            let col = pos - cur_start;
            let prev_start = line_start_of(s, cur_start - 1);
            let prev_len = cur_start - 1 - prev_start;
            match r {
                None => cur_start == 0,
                Some(t) => {
                    &&& cur_start > 0
                    &&& t == prev_start + vstd::math::min(col, prev_len)
                    &&& t <= s.len()
                    &&& line_start_of(s, t as int) == prev_start
                    &&& column_of(s, t as int) == vstd::math::min(col, prev_len)
                },
            }
        }),
{
    let ghost s = text@;
    let cur_start = line_start(text, pos);
    if cur_start == 0 {
        return None;
    }
    // The character at `cur_start - 1` is a newline, so the previous line
    // ends exactly there.
    let prev_end = cur_start - 1;
    let prev_start = line_start(text, prev_end);
    let col = pos - cur_start;
    let prev_len = prev_end - prev_start;
    let newcol = if col < prev_len {
        col
    } else {
        prev_len
    };
    let t = prev_start + newcol;
    proof {
        lemma_line_start_bounds(s, pos as int);
        lemma_line_start_char(s, pos as int);
        assert(s[cur_start - 1] == '\n');
        assert forall|k: int| prev_start <= k < t implies s[k] != '\n' by {
            lemma_no_newline_before(s, prev_end as int, k);
        }
        lemma_line_start_char(s, prev_end as int);
        assert(prev_start == 0 || s[prev_start - 1] == '\n');
        lemma_start_reach(s, prev_start as int, t as int);
    }
    Some(t)
}

/// The move down from `pos`: the offset in the next line at the old
/// column clamped to that line's length, or no move on the last line.
pub fn down_target(text: &Vec<char>, pos: usize) -> (r: Option<usize>)
    requires
        pos <= text@.len(),
    ensures
        ({
            let s = text@;
            let cur_start = line_start_of(s, pos as int);
            let cur_end = line_end_of(s, pos as int);
            let col = pos - cur_start;
            let next_start = cur_end + 1;
            let next_len = line_end_of(s, next_start) - next_start;
            match r {
                None => cur_end == s.len(),
                Some(t) => {
                    &&& cur_end < s.len()
                    &&& t == next_start + vstd::math::min(col, next_len)
                    &&& t <= s.len()
                    &&& line_start_of(s, t as int) == next_start
                    &&& column_of(s, t as int) == vstd::math::min(col, next_len)
                },
            }
        }),
{
    let ghost s = text@;
    let cur_start = line_start(text, pos);
    let cur_end = line_end(text, pos);
    if cur_end == text.len() {
        return None;
    }
    // The character at `cur_end` is a newline, so the next line starts
    // just after it.
    let next_start = cur_end + 1;
    let next_end = line_end(text, next_start);
    let col = pos - cur_start;
    let next_len = next_end - next_start;
    let newcol = if col < next_len {
        col
    } else {
        next_len
    };
    let t = next_start + newcol;
    proof {
        lemma_line_end_char(s, pos as int);
        assert(s[cur_end as int] == '\n');
        assert forall|k: int| next_start <= k < t implies s[k] != '\n' by {
            lemma_no_newline_after(s, next_start as int, k);
        }
        lemma_start_reach(s, next_start as int, t as int);
    }
    Some(t)
}

} // verus!
