//! HTML and href escaping, done by `pulldown_cmark_escape` behind exact
//! contracts.
//!
//! The attribute and body-text escapes replace a fixed handful of ASCII
//! characters by named escapes and pass everything else through, so their
//! results are stated character by character.  The href escape
//! percent-encodes over the UTF-8 bytes of the input, so its result is
//! only named.

use vstd::prelude::*;

verus! {

/// The escape of one character in an HTML attribute context.
pub open spec fn html_escape_char(c: char) -> Seq<char> {
    if c == '&' {
        seq!['&', 'a', 'm', 'p', ';']
    } else if c == '<' {
        seq!['&', 'l', 't', ';']
    } else if c == '>' {
        seq!['&', 'g', 't', ';']
    } else if c == '"' {
        seq!['&', 'q', 'u', 'o', 't', ';']
    } else if c == '\'' {
        seq!['&', '#', '3', '9', ';']
    } else {
        seq![c]
    }
}

/// The escape of one character in HTML body text, where quotes stay.
pub open spec fn body_escape_char(c: char) -> Seq<char> {
    if c == '&' {
        seq!['&', 'a', 'm', 'p', ';']
    } else if c == '<' {
        seq!['&', 'l', 't', ';']
    } else if c == '>' {
        seq!['&', 'g', 't', ';']
    } else {
        seq![c]
    }
}

pub open spec fn html_escaped(s: Seq<char>) -> Seq<char>
    decreases s.len(),
{
    if s.len() == 0 {
        Seq::empty()
    } else {
        html_escape_char(s[0]) + html_escaped(s.drop_first())
    }
}

pub open spec fn body_escaped(s: Seq<char>) -> Seq<char>
    decreases s.len(),
{
    if s.len() == 0 {
        Seq::empty()
    } else {
        body_escape_char(s[0]) + body_escaped(s.drop_first())
    }
}

/// What `pulldown_cmark_escape::escape_href` writes for a given input:
/// a percent-encoding over the input's UTF-8 bytes, a function of the
/// input alone.
pub uninterp spec fn href_escaped(s: Seq<char>) -> Seq<char>;

/// Relies on pulldown_cmark_escape::escape_html: the bytes `&`, `<`,
/// `>`, `"` and `'` are replaced by their fixed escapes and every other
/// character is written through unchanged; writing to a String cannot
/// fail.
#[verifier::external_body]
pub(crate) fn escape_html(s: &str) -> (r: String)
    ensures
        r@ == html_escaped(s@),
{
    let mut out = String::new();
    let _ = pulldown_cmark_escape::escape_html(&mut out, s);
    out
}

/// Relies on pulldown_cmark_escape::escape_html_body_text: as the
/// attribute escape, but `"` and `'` stay unescaped.
#[verifier::external_body]
pub(crate) fn escape_html_body(s: &str) -> (r: String)
    ensures
        r@ == body_escaped(s@),
{
    let mut out = String::new();
    let _ = pulldown_cmark_escape::escape_html_body_text(&mut out, s);
    out
}

/// Relies on pulldown_cmark_escape::escape_href: bytes outside its safe
/// set are percent-encoded (`&` and `'` by their HTML escapes), a pure
/// function of the input; an empty input writes nothing.
#[verifier::external_body]
pub(crate) fn escape_href(s: &str) -> (r: String)
    ensures
        r@ == href_escaped(s@),
        s@.len() == 0 ==> r@.len() == 0,
{
    let mut out = String::new();
    let _ = pulldown_cmark_escape::escape_href(&mut out, s);
    out
}

} // verus!
