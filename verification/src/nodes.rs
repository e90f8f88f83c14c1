//! The structural node tree: one tagged variant per markdown construct,
//! rebuilt wholesale from the content on every render and holding no
//! back-references.
//!
//! Element nodes keep the literal syntax markers of their construct as
//! ordinary text children, so the raw syntax stays visible in a rendered
//! surface; text runs are HTML-escaped with line breaks turned into
//! explicit break markers; raw HTML passes through unescaped.

use vstd::prelude::*;
use crate::events::MdAlign;

verus! {

/// The kind of an element node, with everything it carries besides its
/// children.
#[derive(Clone, Debug, PartialEq)]
pub enum ElemKind {
    Paragraph,
    Heading { level: u8, id: Option<String>, class: Option<String> },
    BlockQuote { class: Option<String> },
    CodeBlock { class: Option<String> },
    /// Children spliced in with no element of their own, as for raw HTML
    /// blocks and suppressed metadata blocks.
    Fragment,
    UnorderedList,
    /// The start attribute is kept only when it is not 1.
    OrderedList { start: Option<u64> },
    ListItem,
    FootnoteDefinition { id: String, number: usize },
    DefinitionList,
    DefinitionTitle,
    DefinitionDetail,
    Table,
    TableHead,
    TableRow,
    TableCell { header: bool, align: MdAlign },
    Emphasis,
    Strong,
    Strikethrough,
    Subscript,
    Superscript,
    Link { href: String, title: Option<String> },
    Image { src: String, title: Option<String> },
}

/// One node of the rendered tree.
#[derive(Debug, PartialEq)]
pub enum Node {
    Element(ElemKind, Vec<Node>),
    /// An HTML-escaped text run with break markers for line breaks.
    Text(String),
    /// Raw HTML passed through unescaped.
    RawHtml(String),
    InlineCode(String),
    MathInline(String),
    MathDisplay(String),
    FootnoteReference { href: String, number: usize },
    Break,
    Rule,
    Checkbox { checked: bool },
}

/// The mathematical value of an element kind.
pub enum ElemKindSpec {
    Paragraph,
    Heading { level: u8, id: Option<Seq<char>>, class: Option<Seq<char>> },
    BlockQuote { class: Option<Seq<char>> },
    CodeBlock { class: Option<Seq<char>> },
    Fragment,
    UnorderedList,
    OrderedList { start: Option<u64> },
    ListItem,
    FootnoteDefinition { id: Seq<char>, number: int },
    DefinitionList,
    DefinitionTitle,
    DefinitionDetail,
    Table,
    TableHead,
    TableRow,
    TableCell { header: bool, align: MdAlign },
    Emphasis,
    Strong,
    Strikethrough,
    Subscript,
    Superscript,
    Link { href: Seq<char>, title: Option<Seq<char>> },
    Image { src: Seq<char>, title: Option<Seq<char>> },
}

/// The mathematical value of a node.
pub enum NodeSpec {
    Element(ElemKindSpec, Seq<NodeSpec>),
    Text(Seq<char>),
    RawHtml(Seq<char>),
    InlineCode(Seq<char>),
    MathInline(Seq<char>),
    MathDisplay(Seq<char>),
    FootnoteReference { href: Seq<char>, number: int },
    Break,
    Rule,
    Checkbox { checked: bool },
}

pub open spec fn opt_str_view(s: Option<String>) -> Option<Seq<char>> {
    match s {
        Some(s) => Some(s@),
        None => None,
    }
}

pub open spec fn kind_view(k: ElemKind) -> ElemKindSpec {
    match k {
        ElemKind::Paragraph => ElemKindSpec::Paragraph,
        ElemKind::Heading { level, id, class } => ElemKindSpec::Heading {
            level,
            id: opt_str_view(id),
            class: opt_str_view(class),
        },
        ElemKind::BlockQuote { class } => ElemKindSpec::BlockQuote {
            class: opt_str_view(class),
        },
        ElemKind::CodeBlock { class } => ElemKindSpec::CodeBlock {
            class: opt_str_view(class),
        },
        ElemKind::Fragment => ElemKindSpec::Fragment,
        ElemKind::UnorderedList => ElemKindSpec::UnorderedList,
        ElemKind::OrderedList { start } => ElemKindSpec::OrderedList { start },
        ElemKind::ListItem => ElemKindSpec::ListItem,
        ElemKind::FootnoteDefinition { id, number } => ElemKindSpec::FootnoteDefinition {
            id: id@,
            number: number as int,
        },
        ElemKind::DefinitionList => ElemKindSpec::DefinitionList,
        ElemKind::DefinitionTitle => ElemKindSpec::DefinitionTitle,
        ElemKind::DefinitionDetail => ElemKindSpec::DefinitionDetail,
        ElemKind::Table => ElemKindSpec::Table,
        ElemKind::TableHead => ElemKindSpec::TableHead,
        ElemKind::TableRow => ElemKindSpec::TableRow,
        ElemKind::TableCell { header, align } => ElemKindSpec::TableCell { header, align },
        ElemKind::Emphasis => ElemKindSpec::Emphasis,
        ElemKind::Strong => ElemKindSpec::Strong,
        ElemKind::Strikethrough => ElemKindSpec::Strikethrough,
        ElemKind::Subscript => ElemKindSpec::Subscript,
        ElemKind::Superscript => ElemKindSpec::Superscript,
        ElemKind::Link { href, title } => ElemKindSpec::Link {
            href: href@,
            title: opt_str_view(title),
        },
        ElemKind::Image { src, title } => ElemKindSpec::Image {
            src: src@,
            title: opt_str_view(title),
        },
    }
}

pub open spec fn node_view(n: Node) -> NodeSpec
    decreases n, 1int,
        via node_view_decreases
{
    match n {
        Node::Element(kind, children) => NodeSpec::Element(
            kind_view(kind),
            nodes_seq_view(children@),
        ),
        Node::Text(s) => NodeSpec::Text(s@),
        Node::RawHtml(s) => NodeSpec::RawHtml(s@),
        Node::InlineCode(s) => NodeSpec::InlineCode(s@),
        Node::MathInline(s) => NodeSpec::MathInline(s@),
        Node::MathDisplay(s) => NodeSpec::MathDisplay(s@),
        Node::FootnoteReference { href, number } => NodeSpec::FootnoteReference {
            href: href@,
            number: number as int,
        },
        Node::Break => NodeSpec::Break,
        Node::Rule => NodeSpec::Rule,
        Node::Checkbox { checked } => NodeSpec::Checkbox { checked },
    }
}

#[via_fn]
proof fn node_view_decreases(n: Node) {
    broadcast use vstd::std_specs::vec::group_vec_axioms;
    if let Node::Element(_kind, children) = n {
        assert(decreases_to!(n => children));
        assert(decreases_to!(children => children@));
    }
}

/// The views of a sequence of nodes, defined element by element.
pub open spec fn nodes_seq_view(ns: Seq<Node>) -> Seq<NodeSpec>
    decreases ns, 0int,
{
    if ns.len() == 0 {
        Seq::empty()
    } else {
        seq![node_view(ns[0])] + nodes_seq_view(ns.drop_first())
    }
}

/// The views of a vector of nodes.
pub open spec fn nodes_view(ns: Seq<Node>) -> Seq<NodeSpec> {
    nodes_seq_view(ns)
}

pub proof fn lemma_nodes_view_empty()
    ensures
        nodes_seq_view(Seq::<Node>::empty()) == Seq::<NodeSpec>::empty(),
{
}

pub proof fn lemma_nodes_view_push(ns: Seq<Node>, n: Node)
    ensures
        nodes_seq_view(ns.push(n)) == nodes_seq_view(ns).push(node_view(n)),
    decreases ns.len(),
{
    if ns.len() == 0 {
        assert(ns.push(n)[0] == n);
        assert(ns.push(n).drop_first() =~= Seq::<Node>::empty());
        assert(nodes_seq_view(ns.push(n)) == seq![node_view(n)] + nodes_seq_view(
            Seq::<Node>::empty(),
        ));
        assert(seq![node_view(n)] + Seq::<NodeSpec>::empty() =~= seq![node_view(n)]);
        assert(nodes_seq_view(ns).push(node_view(n)) =~= seq![node_view(n)]);
    } else {
        assert(ns.push(n)[0] == ns[0]);
        assert(ns.push(n).drop_first() =~= ns.drop_first().push(n));
        lemma_nodes_view_push(ns.drop_first(), n);
        assert(seq![node_view(ns[0])] + nodes_seq_view(ns.drop_first()).push(node_view(n))
            =~= (seq![node_view(ns[0])] + nodes_seq_view(ns.drop_first())).push(node_view(n)));
    }
}

/// The element count of a view matches the node count.
pub proof fn lemma_nodes_view_len(ns: Seq<Node>)
    ensures
        nodes_seq_view(ns).len() == ns.len(),
    decreases ns.len(),
{
    if ns.len() > 0 {
        lemma_nodes_view_len(ns.drop_first());
    }
}

} // verus!
