//! Character-level text helpers for the renderer: mapping characters to
//! replacement runs, break markers inside text nodes, joining class
//! names, the language token of a fence info string, and the footnote
//! name registry.

use vstd::prelude::*;

verus! {

/// The concatenation of `f` applied to every character of `s`, in order.
pub open spec fn concat_map(s: Seq<char>, f: spec_fn(char) -> Seq<char>) -> Seq<char>
    decreases s.len(),
{
    if s.len() == 0 {
        Seq::empty()
    } else {
        f(s[0]) + concat_map(s.drop_first(), f)
    }
}

pub proof fn lemma_concat_map_push(s: Seq<char>, f: spec_fn(char) -> Seq<char>, c: char)
    ensures
        concat_map(s.push(c), f) == concat_map(s, f) + f(c),
    decreases s.len(),
{
    if s.len() == 0 {
        assert(s.push(c)[0] == c);
        assert(s.push(c).drop_first() =~= Seq::<char>::empty());
        assert(concat_map(Seq::<char>::empty(), f) == Seq::<char>::empty());
        assert(concat_map(s.push(c), f) == f(c) + Seq::<char>::empty());
        assert(f(c) + Seq::<char>::empty() =~= f(c));
        assert(concat_map(s, f) + f(c) =~= f(c));
    } else {
        assert(s.push(c).drop_first() =~= s.drop_first().push(c));
        lemma_concat_map_push(s.drop_first(), f, c);
        assert(concat_map(s.push(c), f) == f(s[0]) + (concat_map(s.drop_first(), f) + f(c)));
        assert(f(s[0]) + (concat_map(s.drop_first(), f) + f(c)) =~= (f(s[0]) + concat_map(
            s.drop_first(),
            f,
        )) + f(c));
    }
}

/// What one character of an escaped text run displays as: a line break
/// becomes an explicit break marker, everything else stands.
pub open spec fn break_char(c: char) -> Seq<char> {
    if c == '\n' {
        "<br />\n"@
    } else {
        seq![c]
    }
}

/// A text run with every line break turned into a break marker.
pub open spec fn breaks_marked(s: Seq<char>) -> Seq<char> {
    concat_map(s, |c: char| break_char(c))
}

/// Relies on String::push: appends one character.
#[verifier::external_body]
pub(crate) fn push_char(s: &mut String, c: char)
    ensures
        final(s)@ == old(s)@.push(c),
{
    s.push(c);
}

/// Turn every line break of `s` into an explicit break marker.
pub fn mark_breaks(s: &str) -> (r: String)
    ensures
        r@ == breaks_marked(s@),
{
    let n = s.unicode_len();
    let mut out = String::new();
    let mut i: usize = 0;
    proof {
        assert(s@.subrange(0, 0) =~= Seq::<char>::empty());
    }
    while i < n
        invariant
            i <= n == s@.len(),
            out@ == breaks_marked(s@.subrange(0, i as int)),
        decreases n - i,
    {
        let c = s.get_char(i);
        proof {
            assert(s@.subrange(0, i + 1) =~= s@.subrange(0, i as int).push(s@[i as int]));
            lemma_concat_map_push(s@.subrange(0, i as int), |c: char| break_char(c), s@[i as int]);
        }
        if c == '\n' {
            out.append("<br />\n");
        } else {
            push_char(&mut out, c);
            proof {
                assert(out@ =~= breaks_marked(s@.subrange(0, i as int)) + seq![c]);
            }
        }
        i = i + 1;
    }
    proof {
        assert(s@.subrange(0, s@.len() as int) =~= s@);
    }
    out
}

/// The strings of `xs` joined with `sep` between each pair.
pub open spec fn join_sep(xs: Seq<Seq<char>>, sep: char) -> Seq<char>
    decreases xs.len(),
{
    if xs.len() == 0 {
        Seq::empty()
    } else if xs.len() == 1 {
        xs[0]
    } else {
        xs[0] + seq![sep] + join_sep(xs.drop_first(), sep)
    }
}

proof fn lemma_join_sep_push(xs: Seq<Seq<char>>, sep: char, x: Seq<char>)
    ensures
        join_sep(xs.push(x), sep) == if xs.len() == 0 {
            x
        } else {
            join_sep(xs, sep) + seq![sep] + x
        },
    decreases xs.len(),
{
    if xs.len() == 0 {
        assert(join_sep(xs.push(x), sep) =~= x);
    } else {
        assert(xs.push(x).drop_first() =~= xs.drop_first().push(x));
        lemma_join_sep_push(xs.drop_first(), sep, x);
        if xs.len() == 1 {
            assert(xs.push(x)[0] =~= xs[0]);
            assert(join_sep(xs.push(x), sep) =~= xs[0] + seq![sep] + x);
            assert(join_sep(xs, sep) =~= xs[0]);
        } else {
            assert(join_sep(xs.push(x), sep) == xs[0] + seq![sep] + join_sep(
                xs.drop_first().push(x),
                sep,
            ));
            assert(xs[0] + seq![sep] + (join_sep(xs.drop_first(), sep) + seq![sep] + x) =~= (xs[0]
                + seq![sep] + join_sep(xs.drop_first(), sep)) + seq![sep] + x);
        }
    }
}

/// The views of a vector of strings.
pub open spec fn strs_view(xs: Seq<String>) -> Seq<Seq<char>> {
    Seq::new(xs.len(), |i: int| xs[i]@)
}

/// Join the strings with a separator; `None` when there are none.
pub fn join_strings(items: &Vec<String>, sep: char) -> (r: Option<String>)
    ensures
        items@.len() == 0 ==> r is None,
        items@.len() > 0 ==> (r matches Some(s) && s@ == join_sep(strs_view(items@), sep)),
{
    if items.len() == 0 {
        return None;
    }
    let mut out = String::new();
    let mut i: usize = 0;
    while i < items.len()
        invariant
            i <= items@.len(),
            out@ == join_sep(strs_view(items@).subrange(0, i as int), sep),
        decreases items@.len() - i,
    {
        proof {
            assert(strs_view(items@).subrange(0, i + 1) =~= strs_view(items@).subrange(
                0,
                i as int,
            ).push(items@[i as int]@));
            lemma_join_sep_push(strs_view(items@).subrange(0, i as int), sep, items@[i as int]@);
        }
        if i > 0 {
            push_char(&mut out, sep);
        }
        let it = &items[i];
        out.append(it.as_str());
        i = i + 1;
    }
    proof {
        assert(strs_view(items@).subrange(0, items@.len() as int) =~= strs_view(items@));
    }
    Some(out)
}

/// The index of the first space of `s`, or its length when there is none:
/// the end of the first space-delimited token.
pub open spec fn first_space(s: Seq<char>) -> int
    decreases s.len(),
{
    if s.len() == 0 {
        0
    } else if s[0] == ' ' {
        0
    } else {
        1 + first_space(s.drop_first())
    }
}

pub proof fn lemma_first_space_bounds(s: Seq<char>)
    ensures
        0 <= first_space(s) <= s.len(),
        forall|k: int| 0 <= k < first_space(s) ==> s[k] != ' ',
        first_space(s) < s.len() ==> s[first_space(s)] == ' ',
    decreases s.len(),
{
    if s.len() > 0 && s[0] != ' ' {
        lemma_first_space_bounds(s.drop_first());
        assert forall|k: int| 0 <= k < first_space(s) implies s[k] != ' ' by {
            if k > 0 {
                assert(s.drop_first()[k - 1] == s[k]);
            }
        }
    }
}

/// The first space-delimited token of a fence info string: its language.
pub open spec fn lang_of(info: Seq<char>) -> Seq<char> {
    info.subrange(0, first_space(info))
}

/// The first space-delimited token of `s`.
pub fn token_before_space(s: &str) -> (r: String)
    ensures
        r@ == lang_of(s@),
{
    let n = s.unicode_len();
    let mut j: usize = 0;
    while j < n && s.get_char(j) != ' '
        invariant
            j <= n == s@.len(),
            forall|k: int| 0 <= k < j ==> s@[k] != ' ',
        decreases n - j,
    {
        j = j + 1;
    }
    proof {
        lemma_first_space_bounds(s@);
        lemma_first_space_at(s@, j as int);
    }
    let tok = s.substring_char(0, j);
    tok.to_owned()
}

proof fn lemma_first_space_at(s: Seq<char>, j: int)
    requires
        0 <= j <= s.len(),
        forall|k: int| 0 <= k < j ==> s[k] != ' ',
        j < s.len() ==> s[j] == ' ',
    ensures
        first_space(s) == j,
    decreases j,
{
    if j > 0 {
        assert forall|k: int| 0 <= k < j - 1 implies s.drop_first()[k] != ' ' by {
            assert(s.drop_first()[k] == s[k + 1]);
        }
        assert(j - 1 < s.drop_first().len() ==> s.drop_first()[j - 1] == s[j]);
        lemma_first_space_at(s.drop_first(), j - 1);
    }
}

/// The position of the first occurrence of `x` in `ns`, if any.
pub open spec fn first_index(ns: Seq<Seq<char>>, x: Seq<char>) -> Option<int>
    decreases ns.len(),
{
    if ns.len() == 0 {
        None
    } else if ns[0] == x {
        Some(0int)
    } else {
        match first_index(ns.drop_first(), x) {
            Some(j) => Some(j + 1),
            None => None,
        }
    }
}

proof fn lemma_first_index_found(ns: Seq<Seq<char>>, x: Seq<char>, i: int)
    requires
        0 <= i < ns.len(),
        ns[i] == x,
        forall|k: int| 0 <= k < i ==> ns[k] != x,
    ensures
        first_index(ns, x) == Some(i),
    decreases i,
{
    if i > 0 {
        assert forall|k: int| 0 <= k < i - 1 implies ns.drop_first()[k] != x by {
            assert(ns.drop_first()[k] == ns[k + 1]);
        }
        lemma_first_index_found(ns.drop_first(), x, i - 1);
    }
}

proof fn lemma_first_index_missing(ns: Seq<Seq<char>>, x: Seq<char>)
    requires
        forall|k: int| 0 <= k < ns.len() ==> ns[k] != x,
    ensures
        first_index(ns, x) is None,
    decreases ns.len(),
{
    if ns.len() > 0 {
        assert forall|k: int| 0 <= k < ns.drop_first().len() implies ns.drop_first()[k] != x by {
            assert(ns.drop_first()[k] == ns[k + 1]);
        }
        lemma_first_index_missing(ns.drop_first(), x);
    }
}

/// Find the position of the first string equal to `x`.
pub fn find_string(ns: &Vec<String>, x: &String) -> (r: Option<usize>)
    ensures
        match r {
            Some(i) => i < ns@.len() && first_index(strs_view(ns@), x@) == Some(i as int),
            None => first_index(strs_view(ns@), x@) is None,
        },
{
    let mut i: usize = 0;
    while i < ns.len()
        invariant
            i <= ns@.len(),
            forall|k: int| 0 <= k < i ==> strs_view(ns@)[k] != x@,
        decreases ns@.len() - i,
    {
        if ns[i] == *x {
            proof {
                lemma_first_index_found(strs_view(ns@), x@, i as int);
            }
            return Some(i);
        }
        i = i + 1;
    }
    proof {
        lemma_first_index_missing(strs_view(ns@), x@);
    }
    None
}

} // verus!
