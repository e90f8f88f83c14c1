//! The markdown token event stream.
//!
//! Parsing is done by `pulldown_cmark`; each of its events is carried
//! over into the library's own event type, plain data that the verified
//! renderer can match on.  What the parser produces for a given content
//! is a pure function of that content and is named `md_events`.

use vstd::prelude::*;
use pulldown_cmark::{Alignment, BlockQuoteKind, CodeBlockKind, CowStr, Event, LinkType, Tag,
    TagEnd};

verus! {

/// A resolved table column alignment.
#[derive(Clone, Copy, Debug, PartialEq, Eq)]
pub enum MdAlign {
    Unaligned,
    Left,
    Center,
    Right,
}

/// The alert kind of a typed blockquote.
#[derive(Clone, Copy, Debug, PartialEq, Eq)]
pub enum MdAlert {
    Note,
    Tip,
    Important,
    Warning,
    Caution,
}

/// An opening tag: a markdown element that can contain others.
#[derive(Clone, Debug, PartialEq)]
pub enum MdTag {
    Paragraph,
    Heading { level: u8, id: Option<String>, classes: Vec<String> },
    BlockQuote(Option<MdAlert>),
    /// `None` for an indented block, the literal info string for a
    /// fenced one.
    CodeBlock(Option<String>),
    HtmlBlock,
    /// `None` for an unordered list, the start number for an ordered one.
    List(Option<u64>),
    Item,
    FootnoteDefinition(String),
    DefinitionList,
    DefinitionListTitle,
    DefinitionListDefinition,
    Table(Vec<MdAlign>),
    TableHead,
    TableRow,
    TableCell,
    Emphasis,
    Strong,
    Strikethrough,
    Superscript,
    Subscript,
    Link { email: bool, dest: String, title: String },
    Image { dest: String, title: String },
    MetadataBlock,
}

/// A closing tag, kept only as far as the renderer distinguishes it: the
/// three closes that update the render context, and all others.
#[derive(Clone, Copy, Debug, PartialEq, Eq)]
pub enum MdTagEnd {
    TableHead,
    TableCell,
    MetadataBlock,
    Other,
}

/// One event of the token stream.
#[derive(Clone, Debug, PartialEq)]
pub enum MdEvent {
    Start(MdTag),
    End(MdTagEnd),
    Text(String),
    Code(String),
    InlineMath(String),
    DisplayMath(String),
    Html(String),
    InlineHtml(String),
    FootnoteReference(String),
    SoftBreak,
    HardBreak,
    Rule,
    TaskListMarker(bool),
}

/// What parsing a content yields: a pure function of the content alone.
pub uninterp spec fn md_events(content: Seq<char>) -> Seq<MdEvent>;

#[verifier::external_type_specification]
#[verifier::external_body]
pub struct ExEvent<'a>(Event<'a>);

#[verifier::external_type_specification]
#[verifier::external_body]
pub struct ExTag<'a>(Tag<'a>);

#[verifier::external_type_specification]
#[verifier::external_body]
pub struct ExTagEnd(TagEnd);

#[verifier::external_type_specification]
#[verifier::external_body]
pub struct ExAlignment(Alignment);

#[verifier::external_type_specification]
#[verifier::external_body]
pub struct ExBlockQuoteKind(BlockQuoteKind);

#[verifier::external_type_specification]
#[verifier::external_body]
pub struct ExCowStr<'a>(CowStr<'a>);

/// Carries a CowStr over into an owned string.
#[verifier::external_body]
fn owned(s: CowStr<'_>) -> String {
    s.to_string()
}

/// Carries Alignment over, variant for variant.
#[verifier::external_body]
fn align_to_md(a: Alignment) -> MdAlign {
    match a {
        Alignment::None => MdAlign::Unaligned,
        Alignment::Left => MdAlign::Left,
        Alignment::Center => MdAlign::Center,
        Alignment::Right => MdAlign::Right,
    }
}

/// Carries BlockQuoteKind over, variant for variant.
#[verifier::external_body]
fn alert_to_md(k: BlockQuoteKind) -> MdAlert {
    match k {
        BlockQuoteKind::Note => MdAlert::Note,
        BlockQuoteKind::Tip => MdAlert::Tip,
        BlockQuoteKind::Important => MdAlert::Important,
        BlockQuoteKind::Warning => MdAlert::Warning,
        BlockQuoteKind::Caution => MdAlert::Caution,
    }
}

/// Carries the data-bearing inline tags of Tag over,
/// moving their fields into owned strings.
#[verifier::external_body]
fn tag_to_md(t: Tag<'_>) -> MdTag {
    match t {
        Tag::Heading { level, id, classes, .. } =>
            MdTag::Heading { level: level as u8, id: id.map(|i| i.to_string()),
                classes: classes.iter().map(|c| c.to_string()).collect() },
        Tag::Link { link_type, dest_url, title, .. } =>
            MdTag::Link { email: link_type == LinkType::Email,
                dest: dest_url.to_string(), title: title.to_string() },
        Tag::Image { dest_url, title, .. } =>
            MdTag::Image { dest: dest_url.to_string(), title: title.to_string() },
        other => tag_block_to_md(other),
    }
}

/// Carries the data-bearing block tags of Tag over.
#[verifier::external_body]
fn tag_block_to_md(t: Tag<'_>) -> MdTag {
    match t {
        Tag::BlockQuote(kind) => MdTag::BlockQuote(kind.map(alert_to_md)),
        Tag::CodeBlock(CodeBlockKind::Indented) => MdTag::CodeBlock(None),
        Tag::CodeBlock(CodeBlockKind::Fenced(info)) =>
            MdTag::CodeBlock(Some(info.to_string())),
        Tag::List(start) => MdTag::List(start),
        Tag::FootnoteDefinition(name) => MdTag::FootnoteDefinition(name.to_string()),
        Tag::Table(aligns) => MdTag::Table(aligns.into_iter().map(align_to_md).collect()),
        Tag::MetadataBlock(_) => MdTag::MetadataBlock,
        other => tag_plain_to_md(other),
    }
}

/// Carries the field-free tags of Tag over, variant for
/// variant; the data-bearing variants are all handled by the callers, so
/// the last arm is never reached.
#[verifier::external_body]
fn tag_plain_to_md(t: Tag<'_>) -> MdTag {
    match t {
        Tag::Paragraph => MdTag::Paragraph, Tag::HtmlBlock => MdTag::HtmlBlock,
        Tag::Item => MdTag::Item, Tag::DefinitionList => MdTag::DefinitionList,
        Tag::DefinitionListTitle => MdTag::DefinitionListTitle,
        Tag::DefinitionListDefinition => MdTag::DefinitionListDefinition,
        Tag::TableHead => MdTag::TableHead, Tag::TableRow => MdTag::TableRow,
        Tag::TableCell => MdTag::TableCell, Tag::Emphasis => MdTag::Emphasis,
        Tag::Strong => MdTag::Strong, Tag::Strikethrough => MdTag::Strikethrough,
        Tag::Superscript => MdTag::Superscript, Tag::Subscript => MdTag::Subscript,
        _ => MdTag::Paragraph,
    }
}

/// Carries TagEnd over: the renderer distinguishes only
/// the three closes that update its context.
#[verifier::external_body]
fn tag_end_to_md(t: TagEnd) -> MdTagEnd {
    match t {
        TagEnd::TableHead => MdTagEnd::TableHead,
        TagEnd::TableCell => MdTagEnd::TableCell,
        TagEnd::MetadataBlock(_) => MdTagEnd::MetadataBlock,
        _ => MdTagEnd::Other,
    }
}

/// Carries Event over, variant for variant, moving each
/// string into an owned one.
#[verifier::external_body]
fn event_to_md(e: Event<'_>) -> MdEvent {
    match e {
        Event::Start(t) => MdEvent::Start(tag_to_md(t)),
        Event::End(t) => MdEvent::End(tag_end_to_md(t)),
        Event::Text(s) => MdEvent::Text(owned(s)),
        Event::Code(s) => MdEvent::Code(owned(s)),
        Event::InlineMath(s) => MdEvent::InlineMath(owned(s)),
        Event::DisplayMath(s) => MdEvent::DisplayMath(owned(s)),
        Event::Html(s) => MdEvent::Html(owned(s)),
        Event::InlineHtml(s) => MdEvent::InlineHtml(owned(s)),
        Event::FootnoteReference(s) => MdEvent::FootnoteReference(owned(s)),
        Event::SoftBreak => MdEvent::SoftBreak, Event::HardBreak => MdEvent::HardBreak,
        Event::Rule => MdEvent::Rule,
        Event::TaskListMarker(c) => MdEvent::TaskListMarker(c),
    }
}

/// Relies on pulldown_cmark::Parser: what it parses from a content is a
/// pure function of that content, named `md_events`.
#[verifier::external_body]
pub(crate) fn parse_markdown(content: &str) -> (r: Vec<MdEvent>)
    ensures
        r@ == md_events(content@),
{
    pulldown_cmark::Parser::new(content).map(event_to_md).collect()
}

} // verus!
