//! The editor state: document, caret, selection and the interaction flag
//! read by the synchronization loop, together with the key-driven
//! transition function.
//!
//! Every operation that computes a caret target returns it, so that the
//! caller can propagate it to the restoration queue of the display
//! surface; the editor itself never talks to a surface.

use vstd::prelude::*;
use crate::document::{Document, insert_spec, delete_spec};
use crate::caret::{up_target, down_target, home_target, end_target};
use crate::lines::{line_start_of, line_end_of};

verus! {

/// A keyboard key handled by the editor, as the surface reports it.
pub enum Key {
    /// A run of printable characters.
    Character(Vec<char>),
    Enter,
    Backspace,
    Delete,
    ArrowLeft,
    ArrowRight,
    ArrowUp,
    ArrowDown,
    Home,
    End,
}

/// The mathematical state of the editor.
pub struct EditorModel {
    pub text: Seq<char>,
    pub history: Seq<Seq<char>>,
    pub caret: Option<int>,
    pub selection: Option<(int, int)>,
    pub clicked: bool,
}

/// Caret and selection, when present, lie within the content.
pub open spec fn wf_model(m: EditorModel) -> bool {
    &&& (m.caret matches Some(p) ==> 0 <= p <= m.text.len())
    &&& (m.selection matches Some(sel) ==> 0 <= sel.0 <= m.text.len() && 0 <= sel.1
        <= m.text.len())
}

pub open spec fn opt_int(r: Option<usize>) -> Option<int> {
    match r {
        Some(p) => Some(p as int),
        None => None,
    }
}

pub open spec fn min_int(a: int, b: int) -> int {
    if a <= b {
        a
    } else {
        b
    }
}

pub open spec fn max_int(a: int, b: int) -> int {
    if a <= b {
        b
    } else {
        a
    }
}

/// The vertical move up: previous line, old column clamped to its length.
pub open spec fn up_tgt_spec(s: Seq<char>, pos: int) -> Option<int> {
    let cur_start = line_start_of(s, pos);
    if cur_start == 0 {
        None
    } else {
        let prev_start = line_start_of(s, cur_start - 1);
        Some(prev_start + min_int(pos - cur_start, cur_start - 1 - prev_start))
    }
}

/// The vertical move down: next line, old column clamped to its length.
pub open spec fn down_tgt_spec(s: Seq<char>, pos: int) -> Option<int> {
    let cur_end = line_end_of(s, pos);
    if cur_end == s.len() {
        None
    } else {
        let cur_start = line_start_of(s, pos);
        let next_start = cur_end + 1;
        let next_len = line_end_of(s, next_start) - next_start;
        Some(next_start + min_int(pos - cur_start, next_len))
    }
}

/// The navigation target of a key from `pos`, or `None` for a boundary
/// no-op or a key that does not navigate.
pub open spec fn target_spec(s: Seq<char>, pos: int, key: Key) -> Option<int> {
    match key {
        Key::ArrowLeft => if pos > 0 {
            Some(pos - 1)
        } else {
            None
        },
        Key::ArrowRight => if pos < s.len() {
            Some(pos + 1)
        } else {
            None
        },
        Key::ArrowUp => up_tgt_spec(s, pos),
        Key::ArrowDown => down_tgt_spec(s, pos),
        Key::Home => Some(line_start_of(s, pos)),
        Key::End => Some(line_end_of(s, pos)),
        _ => None,
    }
}

pub open spec fn is_nav_key(key: Key) -> bool {
    match key {
        Key::ArrowLeft | Key::ArrowRight | Key::ArrowUp | Key::ArrowDown | Key::Home
            | Key::End => true,
        _ => false,
    }
}

/// How a shift-modified move updates the selection: a fresh selection
/// anchors at the pre-move offset; an existing one keeps its anchor and
/// moves only the active end.
pub open spec fn sel_after_shift_move(
    sel: Option<(int, int)>,
    pos: int,
    t: int,
) -> Option<(int, int)> {
    match sel {
        Some(se) => Some((se.0, t)),
        None => Some((pos, t)),
    }
}

/// Insertion at the caret: snapshot, splice, caret after the new text,
/// selection cleared.  A no-op without a caret.
pub open spec fn insert_eff(m: EditorModel, t: Seq<char>) -> (EditorModel, Option<int>) {
    match m.caret {
        None => (m, None::<int>),
        Some(p) => (
            EditorModel {
                text: insert_spec(m.text, p, t),
                history: m.history.push(m.text),
                caret: Some(p + t.len()),
                selection: None,
                clicked: m.clicked,
            },
            Some(p + t.len()),
        ),
    }
}

/// Paste: like insertion, but the selection is left as it is.
pub open spec fn paste_eff(m: EditorModel, t: Seq<char>) -> (EditorModel, Option<int>) {
    match m.caret {
        None => (m, None::<int>),
        Some(p) => (
            EditorModel {
                text: insert_spec(m.text, p, t),
                history: m.history.push(m.text),
                caret: Some(p + t.len()),
                selection: m.selection,
                clicked: m.clicked,
            },
            Some(p + t.len()),
        ),
    }
}

/// Deleting the selected range: snapshot, splice out, caret at the low
/// end, selection cleared.  A no-op without a selection.
pub open spec fn delete_selection_eff(m: EditorModel) -> (EditorModel, Option<int>) {
    match m.selection {
        None => (m, None::<int>),
        Some(sel) => {
            let lo = min_int(sel.0, sel.1);
            let hi = max_int(sel.0, sel.1);
            (
                EditorModel {
                    text: delete_spec(m.text, lo, hi),
                    history: m.history.push(m.text),
                    caret: Some(lo),
                    selection: None,
                    clicked: m.clicked,
                },
                Some(lo),
            )
        },
    }
}

/// Backspace: delete the selection if there is one, else the one
/// character before the caret when it exists.
pub open spec fn backspace_eff(m: EditorModel) -> (EditorModel, Option<int>) {
    match m.caret {
        None => (m, None::<int>),
        Some(p) => if m.selection is Some {
            delete_selection_eff(m)
        } else if p > 0 {
            (
                EditorModel {
                    text: delete_spec(m.text, p - 1, p),
                    history: m.history.push(m.text),
                    caret: Some(p - 1),
                    selection: None,
                    clicked: m.clicked,
                },
                Some(p - 1),
            )
        } else {
            (m, None::<int>)
        },
    }
}

/// Delete: delete the selection if there is one, else the one character
/// after the caret when it exists.
pub open spec fn delete_eff(m: EditorModel) -> (EditorModel, Option<int>) {
    match m.caret {
        None => (m, None::<int>),
        Some(p) => if m.selection is Some {
            delete_selection_eff(m)
        } else if p < m.text.len() {
            (
                EditorModel {
                    text: delete_spec(m.text, p, p + 1),
                    history: m.history.push(m.text),
                    caret: Some(p),
                    selection: None,
                    clicked: m.clicked,
                },
                Some(p),
            )
        } else {
            (m, None::<int>)
        },
    }
}

/// A navigation key: move the caret to its target.  Shift-modified moves
/// extend or create the selection; unmodified moves clear it, even at a
/// boundary no-op.
pub open spec fn move_eff(m: EditorModel, key: Key, shift: bool) -> (
    EditorModel,
    Option<int>,
) {
    match m.caret {
        None => (m, None::<int>),
        Some(p) => {
            let t = target_spec(m.text, p, key);
            if shift {
                match t {
                    None => (m, None::<int>),
                    Some(t) => (
                        EditorModel {
                            caret: Some(t),
                            selection: sel_after_shift_move(m.selection, p, t),
                            ..m
                        },
                        Some(t),
                    ),
                }
            } else {
                match t {
                    None => (EditorModel { selection: None, ..m }, None::<int>),
                    Some(t) => (
                        EditorModel { caret: Some(t), selection: None, ..m },
                        Some(t),
                    ),
                }
            }
        },
    }
}

/// The transition for one key press, with the caret-restoration request
/// it produces.  Every effect is a no-op when there is no caret.
pub open spec fn step_model(m: EditorModel, key: Key, shift: bool) -> (
    EditorModel,
    Option<int>,
) {
    match key {
        Key::Character(t) => insert_eff(m, t@),
        Key::Enter => insert_eff(m, seq!['\n']),
        Key::Backspace => backspace_eff(m),
        Key::Delete => delete_eff(m),
        _ => move_eff(m, key, shift),
    }
}

/// A selection clamped into a content of length `n`.
pub open spec fn clamp_sel(sel: Option<(int, int)>, n: int) -> Option<(int, int)> {
    match sel {
        None => None,
        Some(se) => Some((min_int(se.0, n), min_int(se.1, n))),
    }
}

/// Undo: pop one snapshot and replace the content.  The caret and the
/// selection are not restored from the snapshot; they are only clamped
/// into the restored content so that they stay valid.  A no-op without a
/// caret or with an empty history, though the current caret is still
/// re-queued.
pub open spec fn undo_eff(m: EditorModel) -> (EditorModel, Option<int>) {
    match m.caret {
        None => (m, None::<int>),
        Some(p) => if m.history.len() == 0 {
            (m, Some(p))
        } else {
            let t2 = m.history.last();
            let c2 = min_int(p, t2.len() as int);
            (
                EditorModel {
                    text: t2,
                    history: m.history.drop_last(),
                    caret: Some(c2),
                    selection: clamp_sel(m.selection, t2.len() as int),
                    clicked: m.clicked,
                },
                Some(c2),
            )
        },
    }
}

/// A pointer interaction: the reported offset, clamped into the content,
/// becomes the caret, and the interaction flag is raised.
pub open spec fn click_eff(m: EditorModel, pos: int) -> (EditorModel, Option<int>) {
    let c = min_int(pos, m.text.len() as int);
    (EditorModel { caret: Some(c), clicked: true, ..m }, Some(c))
}

/// One tick of the render-push loop: when a caret is pending and was set
/// by an explicit pointer interaction, re-queue it and consume the flag.
pub open spec fn sync_tick_eff(m: EditorModel) -> (EditorModel, Option<int>) {
    match m.caret {
        Some(p) => if m.clicked {
            (EditorModel { clicked: false, ..m }, Some(p))
        } else {
            (m, None::<int>)
        },
        None => (m, None::<int>),
    }
}

/// Characters that survive the read-back of surface text: everything but
/// the zero-width placeholder the rendering may introduce.
pub open spec fn keep_char(c: char) -> bool {
    c != '\u{200b}'
}

pub open spec fn strip_spec(s: Seq<char>) -> Seq<char> {
    s.filter(|c: char| keep_char(c))
}

/// Adopting surface text: after stripping artifacts, a non-empty text
/// that differs from the content replaces it without a snapshot; caret
/// and selection are clamped into it.  The current caret is re-queued.
pub open spec fn adopt_eff(m: EditorModel, raw: Seq<char>) -> (EditorModel, Option<int>) {
    let clean = strip_spec(raw);
    if clean.len() > 0 && clean != m.text {
        let nm = EditorModel {
            text: clean,
            history: m.history,
            caret: match m.caret {
                Some(p) => Some(min_int(p, clean.len() as int)),
                None => None,
            },
            selection: clamp_sel(m.selection, clean.len() as int),
            clicked: m.clicked,
        };
        (nm, nm.caret)
    } else {
        (m, None::<int>)
    }
}

pub struct Editor {
    doc: Document,
    caret: Option<usize>,
    selection: Option<(usize, usize)>,
    clicked: bool,
}

impl Editor {
    pub closed spec fn model(&self) -> EditorModel {
        EditorModel {
            text: self.doc.text(),
            history: self.doc.history(),
            caret: opt_int(self.caret),
            selection: match self.selection {
                Some(se) => Some((se.0 as int, se.1 as int)),
                None => None,
            },
            clicked: self.clicked,
        }
    }

    pub open spec fn wf(&self) -> bool {
        wf_model(self.model())
    }

    pub fn new(content: Vec<char>) -> (e: Editor)
        ensures
            e.model() == (EditorModel {
                text: content@,
                history: Seq::<Seq<char>>::empty(),
                caret: None::<int>,
                selection: None::<(int, int)>,
                clicked: false,
            }),
            e.wf(),
    {
        Editor { doc: Document::new(content), caret: None, selection: None, clicked: false }
    }

    /// Read access to the characters of the content.
    pub fn chars(&self) -> (v: &Vec<char>)
        ensures
            v@ == self.model().text,
    {
        self.doc.chars()
    }

    /// The content as a string, for a renderer or a surface.
    pub fn content_string(&self) -> (s: String)
        ensures
            s@ == self.model().text,
    {
        let text = self.doc.chars();
        let mut out = String::new();
        let mut i: usize = 0;
        while i < text.len()
            invariant
                i <= text@.len(),
                out@ == text@.subrange(0, i as int),
            decreases text@.len() - i,
        {
            crate::text::push_char(&mut out, text[i]);
            proof {
                assert(text@.subrange(0, i + 1) =~= text@.subrange(0, i as int).push(
                    text@[i as int],
                ));
            }
            i = i + 1;
        }
        proof {
            assert(text@.subrange(0, text@.len() as int) =~= text@);
        }
        out
    }

    pub fn caret(&self) -> (c: Option<usize>)
        ensures
            opt_int(c) == self.model().caret,
    {
        self.caret
    }

    pub fn selection(&self) -> (s: Option<(usize, usize)>)
        ensures
            self.model().selection == match s {
                Some(se) => Some((se.0 as int, se.1 as int)),
                None => None::<(int, int)>,
            },
    {
        self.selection
    }

    /// The selected characters, low end to high end, when a selection
    /// exists.
    pub fn selected_text(&self) -> (r: Option<Vec<char>>)
        requires
            self.wf(),
        ensures
            match self.model().selection {
                None => r is None,
                Some(se) => {
                    &&& r is Some
                    &&& r.unwrap()@ == self.model().text.subrange(
                        min_int(se.0, se.1),
                        max_int(se.0, se.1),
                    )
                },
            },
    {
        match self.selection {
            None => None,
            Some((a, b)) => {
                let lo = if a <= b {
                    a
                } else {
                    b
                };
                let hi = if a <= b {
                    b
                } else {
                    a
                };
                let text = self.doc.chars();
                let mut out: Vec<char> = Vec::new();
                let mut i = lo;
                while i < hi
                    invariant
                        lo <= i <= hi <= text@.len(),
                        out@ == text@.subrange(lo as int, i as int),
                    decreases hi - i,
                {
                    out.push(text[i]);
                    proof {
                        assert(text@.subrange(lo as int, i + 1) =~= text@.subrange(
                            lo as int,
                            i as int,
                        ).push(text@[i as int]));
                    }
                    i = i + 1;
                }
                Some(out)
            },
        }
    }

    /// Insert the characters of `text` at the caret.
    pub fn insert_text(&mut self, text: &Vec<char>) -> (r: Option<usize>)
        requires
            old(self).wf(),
            old(self).model().text.len() + text@.len() <= usize::MAX,
        ensures
            (final(self).model(), opt_int(r)) == insert_eff(old(self).model(), text@),
            final(self).wf(),
    {
        match self.caret {
            None => None,
            Some(p) => {
                self.doc.insert(p, text);
                let np = p + text.len();
                self.caret = Some(np);
                self.selection = None;
                Some(np)
            },
        }
    }

    /// Paste `text` at the caret; the selection is left as it is.
    pub fn paste(&mut self, text: &Vec<char>) -> (r: Option<usize>)
        requires
            old(self).wf(),
            old(self).model().text.len() + text@.len() <= usize::MAX,
        ensures
            (final(self).model(), opt_int(r)) == paste_eff(old(self).model(), text@),
            final(self).wf(),
    {
        match self.caret {
            None => None,
            Some(p) => {
                self.doc.insert(p, text);
                let np = p + text.len();
                self.caret = Some(np);
                Some(np)
            },
        }
    }

    /// Delete the selected range, as cut does after a successful copy.
    pub fn delete_selection(&mut self) -> (r: Option<usize>)
        requires
            old(self).wf(),
        ensures
            (final(self).model(), opt_int(r)) == delete_selection_eff(old(self).model()),
            final(self).wf(),
    {
        match self.selection {
            None => None,
            Some((a, b)) => {
                let lo = if a <= b {
                    a
                } else {
                    b
                };
                self.doc.delete_range(a, b);
                self.caret = Some(lo);
                self.selection = None;
                Some(lo)
            },
        }
    }

    pub fn backspace(&mut self) -> (r: Option<usize>)
        requires
            old(self).wf(),
        ensures
            (final(self).model(), opt_int(r)) == backspace_eff(old(self).model()),
            final(self).wf(),
    {
        match self.caret {
            None => None,
            Some(p) => {
                if self.selection.is_some() {
                    self.delete_selection()
                } else if p > 0 {
                    self.doc.delete_range(p - 1, p);
                    self.caret = Some(p - 1);
                    Some(p - 1)
                } else {
                    None
                }
            },
        }
    }

    pub fn delete_key(&mut self) -> (r: Option<usize>)
        requires
            old(self).wf(),
        ensures
            (final(self).model(), opt_int(r)) == delete_eff(old(self).model()),
            final(self).wf(),
    {
        match self.caret {
            None => None,
            Some(p) => {
                if self.selection.is_some() {
                    self.delete_selection()
                } else if p < self.doc.len() {
                    self.doc.delete_range(p, p + 1);
                    self.caret = Some(p);
                    Some(p)
                } else {
                    None
                }
            },
        }
    }

    /// Move the caret for a navigation key, extending the selection when
    /// shift is held and clearing it otherwise.
    pub fn navigate(&mut self, key: &Key, shift: bool) -> (r: Option<usize>)
        requires
            old(self).wf(),
            is_nav_key(*key),
        ensures
            (final(self).model(), opt_int(r)) == move_eff(old(self).model(), *key, shift),
            final(self).wf(),
    {
        let p = match self.caret {
            None => {
                return None;
            },
            Some(p) => p,
        };
        let t: Option<usize> = match key {
            Key::ArrowLeft => crate::caret::left_target(p),
            Key::ArrowRight => crate::caret::right_target(self.doc.chars(), p),
            Key::ArrowUp => up_target(self.doc.chars(), p),
            Key::ArrowDown => down_target(self.doc.chars(), p),
            Key::Home => Some(home_target(self.doc.chars(), p)),
            Key::End => Some(end_target(self.doc.chars(), p)),
            _ => None,
        };
        let n = self.doc.len();
        proof {
            // The content fits in memory, so a one-step move cannot
            // overflow the offset.
            assert(self.model().text.len() == n);
            assert(opt_int(t) == target_spec(self.model().text, p as int, *key));
        }
        if shift {
            match t {
                None => None,
                Some(t) => {
                    self.caret = Some(t);
                    self.selection = match self.selection {
                        Some((a, _)) => Some((a, t)),
                        None => Some((p, t)),
                    };
                    Some(t)
                },
            }
        } else {
            self.selection = None;
            match t {
                None => None,
                Some(t) => {
                    self.caret = Some(t);
                    Some(t)
                },
            }
        }
    }

    /// Handle one key press, unmodified or shift-modified.
    pub fn handle_key(&mut self, key: &Key, shift: bool) -> (r: Option<usize>)
        requires
            old(self).wf(),
            key matches Key::Character(t) ==> old(self).model().text.len() + t@.len()
                <= usize::MAX,
            key is Enter ==> old(self).model().text.len() < usize::MAX,
        ensures
            (final(self).model(), opt_int(r)) == step_model(old(self).model(), *key, shift),
            final(self).wf(),
    {
        match key {
            Key::Character(t) => self.insert_text(t),
            Key::Enter => {
                let nl: Vec<char> = vec!['\n'];
                proof {
                    assert(nl@ =~= seq!['\n']);
                }
                self.insert_text(&nl)
            },
            Key::Backspace => self.backspace(),
            Key::Delete => self.delete_key(),
            _ => self.navigate(key, shift),
        }
    }

    /// Undo the latest edit; the caret and the selection are only clamped
    /// into the restored content, never restored themselves.
    pub fn undo(&mut self) -> (r: Option<usize>)
        requires
            old(self).wf(),
        ensures
            (final(self).model(), opt_int(r)) == undo_eff(old(self).model()),
            final(self).wf(),
    {
        match self.caret {
            None => None,
            Some(p) => {
                if self.doc.history_len() == 0 {
                    Some(p)
                } else {
                    self.doc.undo();
                    let n = self.doc.len();
                    let c = if p <= n {
                        p
                    } else {
                        n
                    };
                    self.caret = Some(c);
                    self.selection = match self.selection {
                        None => None,
                        Some((a, b)) => Some(
                            (
                                if a <= n {
                                    a
                                } else {
                                    n
                                },
                                if b <= n {
                                    b
                                } else {
                                    n
                                },
                            ),
                        ),
                    };
                    Some(c)
                }
            },
        }
    }

    /// A pointer interaction reported by the surface.
    pub fn click(&mut self, pos: usize) -> (r: Option<usize>)
        requires
            old(self).wf(),
        ensures
            (final(self).model(), opt_int(r)) == click_eff(old(self).model(), pos as int),
            final(self).wf(),
    {
        let n = self.doc.len();
        let c = if pos <= n {
            pos
        } else {
            n
        };
        self.caret = Some(c);
        self.clicked = true;
        Some(c)
    }

    /// One tick of the render-push loop.
    pub fn sync_tick(&mut self) -> (r: Option<usize>)
        requires
            old(self).wf(),
        ensures
            (final(self).model(), opt_int(r)) == sync_tick_eff(old(self).model()),
            final(self).wf(),
    {
        match self.caret {
            Some(p) => {
                if self.clicked {
                    self.clicked = false;
                    Some(p)
                } else {
                    None
                }
            },
            None => None,
        }
    }

    /// Adopt text read back from the surface, artifacts stripped.
    pub fn adopt_surface_text(&mut self, raw: &Vec<char>) -> (r: Option<usize>)
        requires
            old(self).wf(),
        ensures
            (final(self).model(), opt_int(r)) == adopt_eff(old(self).model(), raw@),
            final(self).wf(),
    {
        let clean = strip_artifacts(raw);
        if clean.len() > 0 && !chars_equal(&clean, self.doc.chars()) {
            let n = clean.len();
            self.doc.replace(clean);
            self.caret = match self.caret {
                None => None,
                Some(p) => Some(
                    if p <= n {
                        p
                    } else {
                        n
                    },
                ),
            };
            self.selection = match self.selection {
                None => None,
                Some((a, b)) => Some(
                    (
                        if a <= n {
                            a
                        } else {
                            n
                        },
                        if b <= n {
                            b
                        } else {
                            n
                        },
                    ),
                ),
            };
            self.caret
        } else {
            None
        }
    }
}

/// Remove the zero-width placeholder characters a rendered surface may
/// report inside its text.
pub fn strip_artifacts(raw: &Vec<char>) -> (r: Vec<char>)
    ensures
        r@ == strip_spec(raw@),
{
    let mut out: Vec<char> = Vec::new();
    let mut i: usize = 0;
    proof {
        reveal(Seq::filter);
        assert(raw@.subrange(0, 0) =~= Seq::<char>::empty());
        assert(Seq::<char>::empty().filter(|c: char| keep_char(c)) =~= Seq::<char>::empty());
    }
    while i < raw.len()
        invariant
            i <= raw@.len(),
            out@ == raw@.subrange(0, i as int).filter(|c: char| keep_char(c)),
        decreases raw@.len() - i,
    {
        let c = raw[i];
        proof {
            lemma_strip_step(raw@, i as int);
        }
        if c != '\u{200b}' {
            out.push(c);
        }
        i = i + 1;
    }
    proof {
        assert(raw@.subrange(0, raw@.len() as int) =~= raw@);
    }
    out
}

proof fn lemma_strip_step(s: Seq<char>, i: int)
    requires
        0 <= i < s.len(),
    ensures
        s.subrange(0, i + 1).filter(|c: char| keep_char(c)) == if keep_char(s[i]) {
            s.subrange(0, i).filter(|c: char| keep_char(c)).push(s[i])
        } else {
            s.subrange(0, i).filter(|c: char| keep_char(c))
        },
{
    reveal(Seq::filter);
    assert(s.subrange(0, i + 1).drop_last() =~= s.subrange(0, i));
    assert(s.subrange(0, i + 1).last() == s[i]);
}

/// Character-for-character equality of two buffers.
pub fn chars_equal(a: &Vec<char>, b: &Vec<char>) -> (r: bool)
    ensures
        r <==> a@ == b@,
{
    if a.len() != b.len() {
        return false;
    }
    let mut i: usize = 0;
    while i < a.len()
        invariant
            i <= a@.len(),
            a@.len() == b@.len(),
            forall|k: int| 0 <= k < i ==> a@[k] == b@[k],
        decreases a@.len() - i,
    {
        if a[i] != b[i] {
            return false;
        }
        i = i + 1;
    }
    proof {
        assert(a@ =~= b@);
    }
    true
}

/// The anchor of a selection survives any run of shift-modified moves:
/// each move only replaces the active end.
pub proof fn lemma_anchor_preserved(
    m: EditorModel,
    keys: Seq<Key>,
    shifts: Seq<bool>,
    anchor: int,
)
    requires
        keys.len() == shifts.len(),
        m.selection matches Some(se) && se.0 == anchor,
        forall|i: int| 0 <= i < keys.len() ==> is_nav_key(#[trigger] keys[i]) && shifts[i],
    ensures
        steps_model(m, keys, shifts).selection matches Some(se) && se.0 == anchor,
    decreases keys.len(),
{
    if keys.len() > 0 {
        let (m1, _) = step_model(m, keys[0], shifts[0]);
        assert(m1.selection matches Some(se) && se.0 == anchor);
        lemma_anchor_preserved(m1, keys.drop_first(), shifts.drop_first(), anchor);
    }
}

/// The model after a run of key presses.
pub open spec fn steps_model(m: EditorModel, keys: Seq<Key>, shifts: Seq<bool>) -> EditorModel
    decreases keys.len(),
{
    if keys.len() == 0 || keys.len() != shifts.len() {
        m
    } else {
        steps_model(step_model(m, keys[0], shifts[0]).0, keys.drop_first(), shifts.drop_first())
    }
}

/// Any unmodified key press made with a caret clears the selection.
pub proof fn lemma_unshifted_clears_selection(m: EditorModel, key: Key)
    requires
        m.caret is Some,
    ensures
        step_model(m, key, false).0.selection is None,
{
}

/// One edit followed by one undo restores the content the edit replaced:
/// every mutating effect snapshots the content, and undo pops exactly
/// that snapshot.
pub proof fn lemma_edit_then_undo_restores(m: EditorModel, t: Seq<char>)
    requires
        m.caret is Some,
    ensures
        undo_eff(insert_eff(m, t).0).0.text == m.text,
        undo_eff(paste_eff(m, t).0).0.text == m.text,
        m.selection is Some ==> undo_eff(delete_selection_eff(m).0).0.text == m.text,
{
}


} // verus!
