//! The document buffer: the single owned text content, measured and
//! edited in characters, together with its undo history.
//!
//! Every mutating operation first snapshots the current content onto the
//! undo stack.  The history is a LIFO stack of full snapshots with
//! unbounded depth and no redo; `undo` pops one snapshot and replaces the
//! content with it, and is a no-op when the history is empty.

use vstd::prelude::*;

verus! {

/// The content after inserting `t` at position `p` of `s`.
pub open spec fn insert_spec(s: Seq<char>, p: int, t: Seq<char>) -> Seq<char> {
    s.subrange(0, p) + t + s.subrange(p, s.len() as int)
}

/// The content after deleting the range `[a, b)` of `s` (already ordered).
pub open spec fn delete_spec(s: Seq<char>, a: int, b: int) -> Seq<char> {
    s.subrange(0, a) + s.subrange(b, s.len() as int)
}

/// The views of a stack of content snapshots.
pub open spec fn views_of(s: Seq<Vec<char>>) -> Seq<Seq<char>> {
    s.map_values(|v: Vec<char>| v@)
}

pub struct Document {
    content: Vec<char>,
    undo_stack: Vec<Vec<char>>,
}

impl Document {
    /// The current text content.
    pub closed spec fn text(&self) -> Seq<char> {
        self.content@
    }

    /// The undo history, oldest snapshot first.
    pub closed spec fn history(&self) -> Seq<Seq<char>> {
        views_of(self.undo_stack@)
    }

    pub fn new(content: Vec<char>) -> (d: Document)
        ensures
            d.text() == content@,
            d.history() == Seq::<Seq<char>>::empty(),
    {
        let d = Document { content, undo_stack: Vec::new() };
        proof {
            assert(d.history() =~= Seq::<Seq<char>>::empty());
        }
        d
    }

    /// Read access to the characters, for navigation arithmetic.
    pub fn chars(&self) -> (v: &Vec<char>)
        ensures
            v@ == self.text(),
    {
        &self.content
    }

    pub fn len(&self) -> (n: usize)
        ensures
            n == self.text().len(),
    {
        self.content.len()
    }

    /// Snapshot the current content onto the undo stack.
    fn snapshot(&mut self)
        ensures
            final(self).text() == old(self).text(),
            final(self).history() == old(self).history().push(old(self).text()),
    {
        let copy = self.content.clone();
        assert(copy@ =~= self.content@);
        let ghost h0 = self.undo_stack@;
        self.undo_stack.push(copy);
        proof {
            assert(views_of(h0.push(copy)) =~= views_of(h0).push(copy@));
        }
    }

    /// Splice `text` in at position `pos`, snapshotting first.
    pub fn insert(&mut self, pos: usize, text: &Vec<char>)
        requires
            pos <= old(self).text().len(),
            old(self).text().len() + text@.len() <= usize::MAX,
        ensures
            final(self).text() == insert_spec(old(self).text(), pos as int, text@),
            final(self).history() == old(self).history().push(old(self).text()),
    {
        self.snapshot();
        let ghost s = self.content@;
        let mut tail = self.content.split_off(pos);
        proof {
            assert(self.content@ =~= s.subrange(0, pos as int) + text@.subrange(0, 0));
        }
        let ghost stack0 = self.undo_stack@;
        let mut k: usize = 0;
        while k < text.len()
            invariant
                k <= text@.len(),
                pos <= s.len(),
                self.undo_stack@ == stack0,
                self.content@ == s.subrange(0, pos as int) + text@.subrange(0, k as int),
            decreases text@.len() - k,
        {
            self.content.push(text[k]);
            k = k + 1;
            proof {
                assert(s.subrange(0, pos as int) + text@.subrange(0, k as int)
                    =~= (s.subrange(0, pos as int) + text@.subrange(0, k - 1)).push(
                    text@[k - 1],
                ));
            }
        }
        self.content.append(&mut tail);
        proof {
            assert(text@.subrange(0, text@.len() as int) =~= text@);
            assert(self.content@ =~= insert_spec(s, pos as int, text@));
        }
    }

    /// Delete the range between `a` and `b` (either order), snapshotting
    /// first.  An empty range still snapshots but leaves the text as it is.
    pub fn delete_range(&mut self, a: usize, b: usize)
        requires
            a <= old(self).text().len(),
            b <= old(self).text().len(),
        ensures
            final(self).text() == delete_spec(
                old(self).text(),
                vstd::math::min(a as int, b as int),
                vstd::math::max(a as int, b as int),
            ),
            final(self).history() == old(self).history().push(old(self).text()),
    {
        self.snapshot();
        let ghost s = self.content@;
        let lo = if a <= b { a } else { b };
        let hi = if a <= b { b } else { a };
        let mut tail = self.content.split_off(hi);
        self.content.truncate(lo);
        self.content.append(&mut tail);
        proof {
            assert(self.content@ =~= delete_spec(s, lo as int, hi as int));
        }
    }

    pub fn history_len(&self) -> (n: usize)
        ensures
            n == self.history().len(),
    {
        self.undo_stack.len()
    }

    /// Replace the content without a snapshot, as when text read back
    /// from the surface is adopted wholesale.
    pub fn replace(&mut self, content: Vec<char>)
        ensures
            final(self).text() == content@,
            final(self).history() == old(self).history(),
    {
        self.content = content;
    }

    /// Pop the most recent snapshot and make it the content again; a
    /// no-op when the history is empty.
    pub fn undo(&mut self)
        ensures
            old(self).history().len() == 0 ==> {
                &&& final(self).text() == old(self).text()
                &&& final(self).history() == old(self).history()
            },
            old(self).history().len() > 0 ==> {
                &&& final(self).text() == old(self).history().last()
                &&& final(self).history() == old(self).history().drop_last()
            },
    {
        let ghost h0 = self.undo_stack@;
        match self.undo_stack.pop() {
            Some(prev) => {
                self.content = prev;
                proof {
                    assert(views_of(h0.drop_last()) =~= views_of(h0).drop_last());
                }
            },
            None => {},
        }
    }
}

/// Inserting text `t` at a valid position `p` and then deleting the range
/// `[p, p + |t|)` restores the original content: the edit round-trips.
pub proof fn lemma_insert_delete_round_trip(s: Seq<char>, p: int, t: Seq<char>)
    requires
        0 <= p <= s.len(),
    ensures
        delete_spec(insert_spec(s, p, t), p, p + t.len()) == s,
{
    assert(delete_spec(insert_spec(s, p, t), p, p + t.len()) =~= s);
}

/// The pair (content, history) after `n` consecutive undos.
pub open spec fn undos_spec(c: Seq<char>, h: Seq<Seq<char>>, n: nat) -> (Seq<char>, Seq<
    Seq<char>,
>)
    decreases n,
{
    if n == 0 {
        (c, h)
    } else if h.len() == 0 {
        (c, h)
    } else {
        undos_spec(h.last(), h.drop_last(), (n - 1) as nat)
    }
}

/// The pair (content, history) after a sequence of edits whose results
/// are `cs`; every edit pushes the content it replaces.
pub open spec fn edits_spec(c: Seq<char>, h: Seq<Seq<char>>, cs: Seq<Seq<char>>) -> (
    Seq<char>,
    Seq<Seq<char>>,
)
    decreases cs.len(),
{
    if cs.len() == 0 {
        (c, h)
    } else {
        edits_spec(cs[0], h.push(c), cs.drop_first())
    }
}

proof fn lemma_undos_split(c: Seq<char>, h: Seq<Seq<char>>, m: nat, k: nat)
    ensures
        undos_spec(c, h, m + k) == undos_spec(
            undos_spec(c, h, m).0,
            undos_spec(c, h, m).1,
            k,
        ),
    decreases m,
{
    if m > 0 && h.len() > 0 {
        lemma_undos_split(h.last(), h.drop_last(), (m - 1) as nat, k);
    }
}

/// Undo is a strict LIFO: after any `n` edits, `n` undos restore the
/// content and the history exactly as they were.
pub proof fn lemma_undo_lifo(c: Seq<char>, h: Seq<Seq<char>>, cs: Seq<Seq<char>>)
    ensures
        undos_spec(edits_spec(c, h, cs).0, edits_spec(c, h, cs).1, cs.len()) == (c, h),
    decreases cs.len(),
{
    if cs.len() > 0 {
        let c1 = cs[0];
        let h1 = h.push(c);
        lemma_undo_lifo(c1, h1, cs.drop_first());
        let f = edits_spec(c1, h1, cs.drop_first());
        assert(edits_spec(c, h, cs) == f);
        lemma_undos_split(f.0, f.1, cs.drop_first().len(), 1);
        assert(cs.len() == cs.drop_first().len() + 1);
        assert(undos_spec(h1.last(), h1.drop_last(), 0) == (h1.last(), h1.drop_last()));
        assert(undos_spec(c1, h1, 1) == (h1.last(), h1.drop_last()));
        assert(h1.last() == c);
        assert(h1.drop_last() =~= h);
    }
}

/// An undo with no history to pop is a no-op, however often it is tried:
/// in particular the (n+1)th undo after n edits from a fresh document.
pub proof fn lemma_undo_on_empty(c: Seq<char>, n: nat)
    ensures
        undos_spec(c, Seq::<Seq<char>>::empty(), n) == (c, Seq::<Seq<char>>::empty()),
{
}

} // verus!
