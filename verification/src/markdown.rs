//! The structural renderer: a single pass over the markdown token event
//! stream that builds the node tree, with one transient `Context` per
//! render.
//!
//! Each open tag pushes a frame; its matching close pops the frame into a
//! finished node, and only updates the context (the table head-to-body
//! transition, the cell index, leaving a metadata block).  An unmatched
//! close at the top level ends the pass.  Rendering is a pure function of
//! the content: the tree equals `node_tree_of(content)`.

use vstd::prelude::*;
use crate::events::{MdEvent, MdTag, MdTagEnd, MdAlert, MdAlign, md_events, parse_markdown};
use crate::nodes::{Node, ElemKind, NodeSpec, ElemKindSpec, node_view, nodes_view, nodes_seq_view,
    kind_view, lemma_nodes_view_push, lemma_nodes_view_empty};
use crate::escape::{html_escaped, body_escaped, href_escaped, escape_html, escape_html_body,
    escape_href};
use crate::text::{breaks_marked, mark_breaks, join_sep, strs_view, join_strings, lang_of,
    token_before_space, first_index, find_string};

verus! {

/// The transient render context: footnote numbers in first-definition
/// order, the table head/body state, the active column alignments, the
/// current cell index, and the metadata-suppression flag.
pub struct Context {
    numbers: Vec<String>,
    table_head: bool,
    table_alignments: Vec<MdAlign>,
    table_cell_index: usize,
    in_non_writing_block: bool,
}

/// The mathematical value of a render context.
pub struct ContextView {
    pub numbers: Seq<Seq<char>>,
    pub table_head: bool,
    pub aligns: Seq<MdAlign>,
    pub cell: int,
    pub suppress: bool,
}

impl View for Context {
    type V = ContextView;

    closed spec fn view(&self) -> ContextView {
        ContextView {
            numbers: strs_view(self.numbers@),
            table_head: self.table_head,
            aligns: self.table_alignments@,
            cell: self.table_cell_index as int,
            suppress: self.in_non_writing_block,
        }
    }
}

pub open spec fn init_cx() -> ContextView {
    ContextView {
        numbers: Seq::empty(),
        table_head: true,
        aligns: Seq::empty(),
        cell: 0,
        suppress: false,
    }
}

impl Context {
    pub fn new() -> (cx: Context)
        ensures
            cx@ == init_cx(),
    {
        let cx = Context {
            table_head: true,
            table_alignments: Vec::new(),
            table_cell_index: 0,
            numbers: Vec::new(),
            in_non_writing_block: false,
        };
        proof {
            assert(cx@.numbers =~= init_cx().numbers);
            assert(cx@ == init_cx());
        }
        cx
    }
}

/// The literal marker a heading keeps as leading content.
pub open spec fn heading_marker(level: u8) -> Seq<char> {
    if level == 1 {
        "# "@
    } else if level == 2 {
        "## "@
    } else if level == 3 {
        "### "@
    } else if level == 4 {
        "#### "@
    } else if level == 5 {
        "##### "@
    } else if level == 6 {
        "###### "@
    } else {
        Seq::empty()
    }
}

/// The fixed class name of a typed blockquote.
pub open spec fn alert_class(k: MdAlert) -> Seq<char> {
    match k {
        MdAlert::Note => "markdown-alert-note"@,
        MdAlert::Tip => "markdown-alert-tip"@,
        MdAlert::Important => "markdown-alert-important"@,
        MdAlert::Warning => "markdown-alert-warning"@,
        MdAlert::Caution => "markdown-alert-caution"@,
    }
}

/// The escaped class names of a heading.
pub open spec fn escaped_all(cs: Seq<Seq<char>>) -> Seq<Seq<char>> {
    Seq::new(cs.len(), |i: int| html_escaped(cs[i]))
}

/// The class attribute of a heading: its escaped class names joined with
/// spaces, or nothing when it has none.
pub open spec fn heading_class(cs: Seq<Seq<char>>) -> Option<Seq<char>> {
    if cs.len() == 0 {
        None
    } else {
        Some(join_sep(escaped_all(cs), ' '))
    }
}

/// The language class of a fenced code block: `language-` plus the
/// escaped first token of the info string, or nothing when it is empty.
pub open spec fn code_class(info: Seq<char>) -> Option<Seq<char>> {
    let lang = lang_of(info);
    if lang.len() == 0 {
        None
    } else {
        Some("language-"@ + html_escaped(lang))
    }
}

/// The alignment resolved for the cell at `cell` under `aligns`.
pub open spec fn align_at(aligns: Seq<MdAlign>, cell: int) -> MdAlign {
    if 0 <= cell < aligns.len() {
        aligns[cell]
    } else {
        MdAlign::Unaligned
    }
}

/// What an open tag contributes: the kind of the node it will close
/// into, its leading marker children, and the context after the open.
pub open spec fn start_info(tag: MdTag, cx: ContextView) -> (
    ElemKindSpec,
    Seq<NodeSpec>,
    ContextView,
) {
    match tag {
        MdTag::Paragraph => (ElemKindSpec::Paragraph, Seq::empty(), cx),
        MdTag::Heading { level, id, classes } => (
            ElemKindSpec::Heading {
                level,
                id: match id {
                    Some(s) => Some(html_escaped(s@)),
                    None => None,
                },
                class: heading_class(strs_view(classes@)),
            },
            seq![NodeSpec::Text(heading_marker(level))],
            cx,
        ),
        MdTag::BlockQuote(kind) => (
            ElemKindSpec::BlockQuote {
                class: match kind {
                    Some(k) => Some(alert_class(k)),
                    None => None,
                },
            },
            Seq::empty(),
            cx,
        ),
        MdTag::CodeBlock(info) => (
            ElemKindSpec::CodeBlock {
                class: match info {
                    Some(s) => code_class(s@),
                    None => None,
                },
            },
            Seq::empty(),
            cx,
        ),
        MdTag::HtmlBlock => (ElemKindSpec::Fragment, Seq::empty(), cx),
        MdTag::List(start) => match start {
            None => (ElemKindSpec::UnorderedList, Seq::empty(), cx),
            Some(n) => (
                ElemKindSpec::OrderedList {
                    start: if n == 1 {
                        None
                    } else {
                        Some(n)
                    },
                },
                Seq::empty(),
                cx,
            ),
        },
        MdTag::Item => (ElemKindSpec::ListItem, Seq::empty(), cx),
        MdTag::FootnoteDefinition(name) => {
            let (num, numbers2) = match first_index(cx.numbers, name@) {
                Some(i) => (i + 1, cx.numbers),
                None => (cx.numbers.len() + 1int, cx.numbers.push(name@)),
            };
            (
                ElemKindSpec::FootnoteDefinition { id: html_escaped(name@), number: num as int },
                Seq::empty(),
                ContextView { numbers: numbers2, ..cx },
            )
        },
        MdTag::DefinitionList => (ElemKindSpec::DefinitionList, Seq::empty(), cx),
        MdTag::DefinitionListTitle => (ElemKindSpec::DefinitionTitle, Seq::empty(), cx),
        MdTag::DefinitionListDefinition => (ElemKindSpec::DefinitionDetail, Seq::empty(), cx),
        MdTag::Table(aligns) => (
            ElemKindSpec::Table,
            Seq::empty(),
            ContextView { aligns: aligns@, ..cx },
        ),
        MdTag::TableHead => (
            ElemKindSpec::TableHead,
            Seq::empty(),
            ContextView { table_head: true, cell: 0, ..cx },
        ),
        MdTag::TableRow => (ElemKindSpec::TableRow, Seq::empty(), ContextView { cell: 0, ..cx }),
        MdTag::TableCell => (
            ElemKindSpec::TableCell {
                header: cx.table_head,
                align: align_at(cx.aligns, cx.cell),
            },
            Seq::empty(),
            cx,
        ),
        MdTag::Emphasis => (ElemKindSpec::Emphasis, seq![NodeSpec::Text("*"@)], cx),
        MdTag::Strong => (ElemKindSpec::Strong, seq![NodeSpec::Text("**"@)], cx),
        MdTag::Strikethrough => (ElemKindSpec::Strikethrough, seq![NodeSpec::Text("~~"@)], cx),
        MdTag::Subscript => (ElemKindSpec::Subscript, seq![NodeSpec::Text("~"@)], cx),
        MdTag::Superscript => (ElemKindSpec::Superscript, seq![NodeSpec::Text("^"@)], cx),
        MdTag::Link { email, dest, title } => (
            ElemKindSpec::Link {
                href: if email {
                    "mailto:"@ + href_escaped(dest@)
                } else {
                    href_escaped(dest@)
                },
                title: if title@.len() == 0 {
                    None
                } else {
                    Some(title@)
                },
            },
            Seq::empty(),
            cx,
        ),
        MdTag::Image { dest, title } => (
            ElemKindSpec::Image {
                src: href_escaped(dest@),
                title: if title@.len() == 0 {
                    None
                } else {
                    Some(title@)
                },
            },
            Seq::empty(),
            cx,
        ),
        MdTag::MetadataBlock => (
            ElemKindSpec::Fragment,
            Seq::empty(),
            ContextView { suppress: true, ..cx },
        ),
    }
}

/// How a close tag updates the context: the head section closing flips
/// to body, a cell closing advances the column, a metadata block closing
/// lifts the suppression.
pub open spec fn end_cx(cx: ContextView, te: MdTagEnd) -> ContextView {
    match te {
        MdTagEnd::TableHead => ContextView { table_head: false, ..cx },
        MdTagEnd::TableCell => ContextView { cell: cx.cell + 1, ..cx },
        MdTagEnd::MetadataBlock => ContextView { suppress: false, ..cx },
        MdTagEnd::Other => cx,
    }
}

/// The trailing marker text a wrapping node closes with.
pub open spec fn trailing_nodes(kind: ElemKindSpec) -> Seq<NodeSpec> {
    match kind {
        ElemKindSpec::Emphasis => seq![NodeSpec::Text("*"@)],
        ElemKindSpec::Strong => seq![NodeSpec::Text("**"@)],
        ElemKindSpec::Strikethrough => seq![NodeSpec::Text("~~"@)],
        ElemKindSpec::Subscript => seq![NodeSpec::Text("~"@)],
        ElemKindSpec::Superscript => seq![NodeSpec::Text("^"@)],
        _ => Seq::empty(),
    }
}

/// The node a frame closes into.
pub open spec fn closed_node(kind: ElemKindSpec, children: Seq<NodeSpec>) -> NodeSpec {
    NodeSpec::Element(kind, children + trailing_nodes(kind))
}

/// The nodes a leaf event contributes under a given context.
pub open spec fn leaf_spec(e: MdEvent, cx: ContextView) -> Seq<NodeSpec> {
    match e {
        MdEvent::Text(s) => if cx.suppress {
            Seq::empty()
        } else {
            seq![NodeSpec::Text(breaks_marked(body_escaped(s@)))]
        },
        MdEvent::Code(s) => seq![NodeSpec::InlineCode(body_escaped(s@))],
        MdEvent::InlineMath(s) => seq![NodeSpec::MathInline(html_escaped(s@))],
        MdEvent::DisplayMath(s) => seq![NodeSpec::MathDisplay(html_escaped(s@))],
        MdEvent::Html(s) => seq![NodeSpec::RawHtml(s@)],
        MdEvent::InlineHtml(s) => seq![NodeSpec::RawHtml(s@)],
        MdEvent::FootnoteReference(name) => seq![
            NodeSpec::FootnoteReference {
                href: "#"@ + href_escaped(name@),
                number: cx.numbers.len() + 1int,
            },
        ],
        MdEvent::SoftBreak => seq![NodeSpec::Break],
        MdEvent::HardBreak => seq![NodeSpec::Break],
        MdEvent::Rule => seq![NodeSpec::Rule],
        MdEvent::TaskListMarker(c) => seq![NodeSpec::Checkbox { checked: c }],
        MdEvent::Start(_) => Seq::empty(),
        MdEvent::End(_) => Seq::empty(),
    }
}

/// The machine state of one render pass.
pub struct RenderState {
    pub stack: Seq<(ElemKindSpec, Seq<NodeSpec>)>,
    pub done: Seq<NodeSpec>,
    pub cx: ContextView,
    pub stopped: bool,
}

pub open spec fn init_state() -> RenderState {
    RenderState { stack: Seq::empty(), done: Seq::empty(), cx: init_cx(), stopped: false }
}

/// Where finished nodes go: into the innermost open frame's children, or
/// to the finished top-level nodes when no frame is open.
pub open spec fn append_pair(
    stack: Seq<(ElemKindSpec, Seq<NodeSpec>)>,
    done: Seq<NodeSpec>,
    ns: Seq<NodeSpec>,
) -> (Seq<(ElemKindSpec, Seq<NodeSpec>)>, Seq<NodeSpec>) {
    if stack.len() == 0 {
        (stack, done + ns)
    } else {
        let top = stack.last();
        (stack.drop_last().push((top.0, top.1 + ns)), done)
    }
}

/// Append finished nodes to the innermost open frame, or to the finished
/// top-level nodes when none is open.
pub open spec fn append_out(st: RenderState, ns: Seq<NodeSpec>) -> RenderState {
    let p = append_pair(st.stack, st.done, ns);
    RenderState { stack: p.0, done: p.1, ..st }
}

/// One step of the render pass.
pub open spec fn step_spec(st: RenderState, e: MdEvent) -> RenderState {
    if st.stopped {
        st
    } else {
        match e {
            MdEvent::Start(tag) => {
                let (kind, lead, cx2) = start_info(tag, st.cx);
                RenderState { stack: st.stack.push((kind, lead)), cx: cx2, ..st }
            },
            MdEvent::End(te) => {
                let cx2 = end_cx(st.cx, te);
                if st.stack.len() == 0 {
                    RenderState { cx: cx2, stopped: true, ..st }
                } else {
                    let top = st.stack.last();
                    let node = closed_node(top.0, top.1);
                    let st2 = RenderState { stack: st.stack.drop_last(), cx: cx2, ..st };
                    append_out(st2, seq![node])
                }
            },
            _ => append_out(st, leaf_spec(e, st.cx)),
        }
    }
}

/// The machine state after the first `i` events.
pub open spec fn run_to(events: Seq<MdEvent>, i: int) -> RenderState
    decreases i,
{
    if i <= 0 {
        init_state()
    } else {
        step_spec(run_to(events, i - 1), events[i - 1])
    }
}

/// Close every frame still open when the events run out, innermost
/// first.
pub open spec fn unwind(st: RenderState) -> Seq<NodeSpec>
    decreases st.stack.len(),
{
    if st.stack.len() == 0 {
        st.done
    } else {
        let top = st.stack.last();
        let node = closed_node(top.0, top.1);
        let st2 = RenderState { stack: st.stack.drop_last(), ..st };
        unwind(append_out(st2, seq![node]))
    }
}

/// The node tree of an event stream.
pub open spec fn render_spec(events: Seq<MdEvent>) -> Seq<NodeSpec> {
    unwind(run_to(events, events.len() as int))
}

/// The node tree of a content: rendering is a pure function of the
/// content alone.
pub open spec fn node_tree_of(content: Seq<char>) -> Seq<NodeSpec> {
    render_spec(md_events(content))
}

/// The context's counters stay within the number of steps taken.
proof fn lemma_step_cx_bounds(st: RenderState, e: MdEvent)
    ensures
        st.cx.cell >= 0 ==> 0 <= step_spec(st, e).cx.cell <= st.cx.cell + 1,
        step_spec(st, e).cx.numbers.len() <= st.cx.numbers.len() + 1,
{
}

pub open spec fn frame_view(f: (ElemKind, Vec<Node>)) -> (ElemKindSpec, Seq<NodeSpec>) {
    (kind_view(f.0), nodes_view(f.1@))
}

pub open spec fn stack_view(s: Seq<(ElemKind, Vec<Node>)>) -> Seq<(ElemKindSpec, Seq<NodeSpec>)> {
    Seq::new(s.len(), |i: int| frame_view(s[i]))
}

/// The exact marker string a heading keeps as leading content.
fn heading_marker_string(level: u8) -> (r: String)
    ensures
        r@ == heading_marker(level),
{
    if level == 1 {
        "# ".to_owned()
    } else if level == 2 {
        "## ".to_owned()
    } else if level == 3 {
        "### ".to_owned()
    } else if level == 4 {
        "#### ".to_owned()
    } else if level == 5 {
        "##### ".to_owned()
    } else if level == 6 {
        "###### ".to_owned()
    } else {
        String::new()
    }
}

/// Open one tag: compute the frame it pushes and update the context.
fn start_frame(tag: &MdTag, cx: &mut Context) -> (r: (ElemKind, Vec<Node>))
    ensures
        ({
            let (kind, lead, cx2) = start_info(*tag, old(cx)@);
            &&& kind_view(r.0) == kind
            &&& nodes_view(r.1@) == lead
            &&& final(cx)@ == cx2
        }),
{
    proof {
        lemma_nodes_view_empty();
    }
    match tag {
        MdTag::Paragraph => (ElemKind::Paragraph, Vec::new()),
        MdTag::Heading { level, id, classes } => {
            let idesc = match id {
                Some(s) => Some(escape_html(s.as_str())),
                None => None,
            };
            let mut escaped: Vec<String> = Vec::new();
            let mut i: usize = 0;
            while i < classes.len()
                invariant
                    i <= classes@.len(),
                    strs_view(escaped@) == escaped_all(strs_view(classes@)).subrange(0, i as int),
                decreases classes@.len() - i,
            {
                let ghost epre = escaped@;
                let e = escape_html(classes[i].as_str());
                escaped.push(e);
                proof {
                    assert(e@ == html_escaped(strs_view(classes@)[i as int]));
                    assert(escaped@ == epre.push(e));
                    assert(strs_view(epre).len() == epre.len());
                    assert(strs_view(epre).len() == i as int);
                    assert(epre.len() == i as int);
                    assert(strs_view(escaped@).len() == i + 1);
                    assert forall|k: int| 0 <= k < i + 1 implies strs_view(escaped@)[k]
                        == escaped_all(strs_view(classes@))[k] by {
                        assert(strs_view(escaped@)[k] == escaped@[k]@);
                        if k < i {
                            assert(escaped@[k] == epre[k]);
                            assert(strs_view(epre)[k] == epre[k]@);
                            assert(strs_view(epre)[k] == escaped_all(strs_view(classes@)).subrange(
                                0,
                                i as int,
                            )[k]);
                        }
                    }
                    assert(strs_view(escaped@) =~~= escaped_all(strs_view(classes@)).subrange(
                        0,
                        i + 1,
                    ));
                }
                i = i + 1;
            }
            proof {
                assert(escaped_all(strs_view(classes@)).subrange(
                    0,
                    classes@.len() as int,
                ) =~~= escaped_all(strs_view(classes@)));
            }
            let class = join_strings(&escaped, ' ');
            let marker = heading_marker_string(*level);
            let lead: Vec<Node> = vec![Node::Text(marker)];
            proof {
                lemma_nodes_view_push(Seq::<Node>::empty(), Node::Text(marker));
                assert(lead@ =~= Seq::<Node>::empty().push(Node::Text(marker)));
                assert(nodes_view(lead@) =~= seq![NodeSpec::Text(heading_marker(*level))]);
            }
            (ElemKind::Heading { level: *level, id: idesc, class }, lead)
        },
        MdTag::BlockQuote(kind) => {
            let class = match kind {
                Some(MdAlert::Note) => Some("markdown-alert-note".to_owned()),
                Some(MdAlert::Tip) => Some("markdown-alert-tip".to_owned()),
                Some(MdAlert::Important) => Some("markdown-alert-important".to_owned()),
                Some(MdAlert::Warning) => Some("markdown-alert-warning".to_owned()),
                Some(MdAlert::Caution) => Some("markdown-alert-caution".to_owned()),
                None => None,
            };
            (ElemKind::BlockQuote { class }, Vec::new())
        },
        MdTag::CodeBlock(info) => {
            let class = match info {
                None => None,
                Some(s) => {
                    let lang = token_before_space(s.as_str());
                    if lang.as_str().unicode_len() == 0 {
                        None
                    } else {
                        let mut c = "language-".to_owned();
                        let esc = escape_html(lang.as_str());
                        c.append(esc.as_str());
                        Some(c)
                    }
                },
            };
            (ElemKind::CodeBlock { class }, Vec::new())
        },
        MdTag::HtmlBlock => (ElemKind::Fragment, Vec::new()),
        MdTag::List(start) => match start {
            None => (ElemKind::UnorderedList, Vec::new()),
            Some(n) => (
                ElemKind::OrderedList {
                    start: if *n == 1 {
                        None
                    } else {
                        Some(*n)
                    },
                },
                Vec::new(),
            ),
        },
        MdTag::Item => (ElemKind::ListItem, Vec::new()),
        MdTag::FootnoteDefinition(name) => {
            let known = cx.numbers.len();
            proof {
                assert(cx@.numbers.len() == known);
            }
            let num = match find_string(&cx.numbers, name) {
                Some(i) => i + 1,
                None => {
                    cx.numbers.push(name.clone());
                    proof {
                        assert(strs_view(cx.numbers@) =~= old(cx)@.numbers.push(name@));
                    }
                    cx.numbers.len()
                },
            };
            (ElemKind::FootnoteDefinition { id: escape_html(name.as_str()), number: num },
                Vec::new())
        },
        MdTag::DefinitionList => (ElemKind::DefinitionList, Vec::new()),
        MdTag::DefinitionListTitle => (ElemKind::DefinitionTitle, Vec::new()),
        MdTag::DefinitionListDefinition => (ElemKind::DefinitionDetail, Vec::new()),
        MdTag::Table(aligns) => {
            cx.table_alignments = aligns.clone();
            proof {
                assert(cx@.aligns =~= aligns@);
            }
            (ElemKind::Table, Vec::new())
        },
        MdTag::TableHead => {
            cx.table_head = true;
            cx.table_cell_index = 0;
            (ElemKind::TableHead, Vec::new())
        },
        MdTag::TableRow => {
            cx.table_cell_index = 0;
            (ElemKind::TableRow, Vec::new())
        },
        MdTag::TableCell => {
            let align = if cx.table_cell_index < cx.table_alignments.len() {
                cx.table_alignments[cx.table_cell_index]
            } else {
                MdAlign::Unaligned
            };
            (ElemKind::TableCell { header: cx.table_head, align }, Vec::new())
        },
        MdTag::Emphasis => (ElemKind::Emphasis, marker_lead("*")),
        MdTag::Strong => (ElemKind::Strong, marker_lead("**")),
        MdTag::Strikethrough => (ElemKind::Strikethrough, marker_lead("~~")),
        MdTag::Subscript => (ElemKind::Subscript, marker_lead("~")),
        MdTag::Superscript => (ElemKind::Superscript, marker_lead("^")),
        MdTag::Link { email, dest, title } => {
            let href = if *email {
                let mut h = "mailto:".to_owned();
                let esc = escape_href(dest.as_str());
                h.append(esc.as_str());
                h
            } else {
                escape_href(dest.as_str())
            };
            let t = if title.as_str().unicode_len() == 0 {
                None
            } else {
                Some(title.clone())
            };
            (ElemKind::Link { href, title: t }, Vec::new())
        },
        MdTag::Image { dest, title } => {
            let src = escape_href(dest.as_str());
            let t = if title.as_str().unicode_len() == 0 {
                None
            } else {
                Some(title.clone())
            };
            (ElemKind::Image { src, title: t }, Vec::new())
        },
        MdTag::MetadataBlock => {
            cx.in_non_writing_block = true;
            (ElemKind::Fragment, Vec::new())
        },
    }
}

/// The one-text-node lead of a wrapping construct's literal marker.
fn marker_lead(marker: &str) -> (r: Vec<Node>)
    ensures
        nodes_view(r@) == seq![NodeSpec::Text(marker@)],
{
    let text = Node::Text(marker.to_owned());
    let ghost tnode = text;
    let lead: Vec<Node> = vec![text];
    proof {
        lemma_nodes_view_empty();
        lemma_nodes_view_push(Seq::<Node>::empty(), tnode);
        assert(lead@ =~= Seq::<Node>::empty().push(tnode));
        assert(nodes_view(lead@) =~= seq![NodeSpec::Text(marker@)]);
    }
    lead
}

/// Apply a close tag to the context.
fn end_context(te: &MdTagEnd, cx: &mut Context)
    requires
        old(cx)@.cell < usize::MAX,
    ensures
        final(cx)@ == end_cx(old(cx)@, *te),
{
    match te {
        MdTagEnd::TableHead => {
            cx.table_head = false;
        },
        MdTagEnd::TableCell => {
            cx.table_cell_index = cx.table_cell_index + 1;
        },
        MdTagEnd::MetadataBlock => {
            cx.in_non_writing_block = false;
        },
        MdTagEnd::Other => {},
    }
}

/// Close a frame into its node, appending the trailing marker of a
/// wrapping construct.
fn close_frame(kind: ElemKind, children: Vec<Node>) -> (n: Node)
    ensures
        node_view(n) == closed_node(kind_view(kind), nodes_view(children@)),
{
    let ghost ch0 = children@;
    let mut ch = children;
    match &kind {
        ElemKind::Emphasis => ch.push(Node::Text("*".to_owned())),
        ElemKind::Strong => ch.push(Node::Text("**".to_owned())),
        ElemKind::Strikethrough => ch.push(Node::Text("~~".to_owned())),
        ElemKind::Subscript => ch.push(Node::Text("~".to_owned())),
        ElemKind::Superscript => ch.push(Node::Text("^".to_owned())),
        _ => {},
    }
    proof {
        if ch0.len() < ch@.len() {
            lemma_nodes_view_push(ch0, ch@.last());
        }
        assert(nodes_seq_view(ch@) =~= nodes_view(ch0) + trailing_nodes(kind_view(kind)));
    }
    Node::Element(kind, ch)
}

/// The node of a leaf event, or nothing for suppressed text.
fn leaf_node(e: &MdEvent, cx: &Context) -> (r: Option<Node>)
    requires
        !(e is Start),
        !(e is End),
        cx@.numbers.len() < usize::MAX,
    ensures
        ({
            let ns = leaf_spec(*e, cx@);
            match r {
                None => ns.len() == 0,
                Some(n) => ns == seq![node_view(n)],
            }
        }),
{
    match e {
        MdEvent::Text(s) => {
            if cx.in_non_writing_block {
                None
            } else {
                let esc = escape_html_body(s.as_str());
                Some(Node::Text(mark_breaks(esc.as_str())))
            }
        },
        MdEvent::Code(s) => Some(Node::InlineCode(escape_html_body(s.as_str()))),
        MdEvent::InlineMath(s) => Some(Node::MathInline(escape_html(s.as_str()))),
        MdEvent::DisplayMath(s) => Some(Node::MathDisplay(escape_html(s.as_str()))),
        MdEvent::Html(s) => Some(Node::RawHtml(s.clone())),
        MdEvent::InlineHtml(s) => Some(Node::RawHtml(s.clone())),
        MdEvent::FootnoteReference(name) => {
            let mut href = "#".to_owned();
            let esc = escape_href(name.as_str());
            href.append(esc.as_str());
            let number = cx.numbers.len() + 1;
            Some(Node::FootnoteReference { href, number })
        },
        MdEvent::SoftBreak => Some(Node::Break),
        MdEvent::HardBreak => Some(Node::Break),
        MdEvent::Rule => Some(Node::Rule),
        MdEvent::TaskListMarker(c) => Some(Node::Checkbox { checked: *c }),
        MdEvent::Start(_) => None,
        MdEvent::End(_) => None,
    }
}

/// Move one finished node to where it belongs: into the innermost open
/// frame's children, or to the finished top-level nodes.
fn push_out(stack: &mut Vec<(ElemKind, Vec<Node>)>, done: &mut Vec<Node>, node: Node)
    ensures
        ({
            let p = append_pair(
                stack_view(old(stack)@),
                nodes_view(old(done)@),
                seq![node_view(node)],
            );
            &&& stack_view(final(stack)@) == p.0
            &&& nodes_view(final(done)@) == p.1
        }),
{
    let ghost spre = stack@;
    let ghost dpre = done@;
    let ghost nv = node_view(node);
    match stack.pop() {
        None => {
            done.push(node);
            proof {
                lemma_nodes_view_push(dpre, node);
                assert(nodes_view(done@) =~~= nodes_view(dpre) + seq![nv]);
                assert(stack_view(stack@) =~~= stack_view(spre));
            }
        },
        Some((pk, mut pch)) => {
            let ghost pk0 = pk;
            let ghost pch0 = pch@;
            pch.push(node);
            stack.push((pk, pch));
            proof {
                lemma_nodes_view_push(pch0, node);
                assert(stack_view(spre).last() == (kind_view(pk0), nodes_view(pch0)));
                assert(stack_view(stack@) =~~= stack_view(spre).drop_last().push(
                    (kind_view(pk0), nodes_view(pch0) + seq![nv]),
                ));
                assert(nodes_view(done@) == nodes_view(dpre));
            }
        },
    }
}

/// Render an event stream into the node tree, with a fresh context.
pub fn render_events(events: &Vec<MdEvent>) -> (r: Vec<Node>)
    ensures
        nodes_view(r@) == render_spec(events@),
{
    let mut cx = Context::new();
    let mut stack: Vec<(ElemKind, Vec<Node>)> = Vec::new();
    let mut done: Vec<Node> = Vec::new();
    let mut stopped = false;
    let mut i: usize = 0;
    proof {
        lemma_nodes_view_empty();
        assert(stack_view(stack@) =~~= init_state().stack);
        assert(nodes_view(done@) =~~= init_state().done);
    }
    while i < events.len()
        invariant
            i <= events@.len(),
            stack_view(stack@) == run_to(events@, i as int).stack,
            nodes_view(done@) == run_to(events@, i as int).done,
            cx@ == run_to(events@, i as int).cx,
            stopped == run_to(events@, i as int).stopped,
            0 <= cx@.cell <= i,
            cx@.numbers.len() <= i,
        decreases events@.len() - i,
    {
        let ghost st0 = run_to(events@, i as int);
        let ghost st1 = step_spec(st0, events@[i as int]);
        let e = &events[i];
        if !stopped {
            match e {
                MdEvent::Start(tag) => {
                    let fr = start_frame(tag, &mut cx);
                    stack.push(fr);
                    proof {
                        assert(stack_view(stack@) =~~= st1.stack);
                    }
                },
                MdEvent::End(te) => {
                    end_context(te, &mut cx);
                    let ghost spre = stack@;
                    match stack.pop() {
                        None => {
                            stopped = true;
                            proof {
                                assert(stack_view(stack@) =~~= st1.stack);
                            }
                        },
                        Some((kind, children)) => {
                            let ghost k0 = kind;
                            let ghost c0 = children@;
                            proof {
                                assert(stack_view(spre).last() == (kind_view(k0), nodes_view(c0)));
                                assert(stack_view(stack@) =~~= stack_view(spre).drop_last());
                            }
                            let node = close_frame(kind, children);
                            push_out(&mut stack, &mut done, node);
                            proof {
                                assert(stack_view(stack@) =~~= st1.stack);
                                assert(nodes_view(done@) =~~= st1.done);
                            }
                        },
                    }
                },
                _ => {
                    match leaf_node(e, &cx) {
                        None => {
                            proof {
                                assert(leaf_spec(events@[i as int], st0.cx).len() == 0);
                                assert(st1.stack =~~= st0.stack);
                                assert(st1.done =~~= st0.done);
                            }
                        },
                        Some(node) => {
                            push_out(&mut stack, &mut done, node);
                            proof {
                                assert(stack_view(stack@) =~~= st1.stack);
                                assert(nodes_view(done@) =~~= st1.done);
                            }
                        },
                    }
                },
            }
        }
        proof {
            lemma_step_cx_bounds(st0, events@[i as int]);
        }
        i = i + 1;
    }
    // Close whatever is still open, innermost first.
    let ghost stfin = RenderState {
        stack: stack_view(stack@),
        done: nodes_view(done@),
        cx: cx@,
        stopped,
    };
    proof {
        assert(unwind(stfin) == render_spec(events@));
    }
    while stack.len() > 0
        invariant
            unwind(
                RenderState {
                    stack: stack_view(stack@),
                    done: nodes_view(done@),
                    cx: stfin.cx,
                    stopped: stfin.stopped,
                },
            ) == render_spec(events@),
        decreases stack@.len(),
    {
        let ghost stc = RenderState {
            stack: stack_view(stack@),
            done: nodes_view(done@),
            cx: stfin.cx,
            stopped: stfin.stopped,
        };
        let ghost spre = stack@;
        match stack.pop() {
            Some((kind, children)) => {
                let ghost k0 = kind;
                let ghost c0 = children@;
                proof {
                    assert(stack_view(spre).last() == (kind_view(k0), nodes_view(c0)));
                    assert(stack_view(stack@) =~~= stack_view(spre).drop_last());
                }
                let node = close_frame(kind, children);
                push_out(&mut stack, &mut done, node);
                proof {
                    assert(stack_view(stack@) =~~= unwind_one(stc).stack);
                    assert(nodes_view(done@) =~~= unwind_one(stc).done);
                    assert(unwind(unwind_one(stc)) == unwind(stc));
                }
            },
            None => {},
        }
    }
    proof {
        assert(nodes_view(done@) == render_spec(events@));
    }
    done
}

/// The state after closing the innermost open frame.
pub open spec fn unwind_one(st: RenderState) -> RenderState {
    let top = st.stack.last();
    let node = closed_node(top.0, top.1);
    let st2 = RenderState { stack: st.stack.drop_last(), ..st };
    append_out(st2, seq![node])
}

/// The renderer: a content and the node tree rendered from it.
pub struct MarkdownRenderer {
    pub content: String,
    pub nodes: Vec<Node>,
}

impl MarkdownRenderer {
    /// Build a renderer and render the content at once.
    pub fn new(content: String) -> (r: MarkdownRenderer)
        ensures
            r.content@ == content@,
            nodes_view(r.nodes@) == node_tree_of(content@),
    {
        let mut renderer = MarkdownRenderer { content, nodes: Vec::<Node>::new() };
        renderer.render_to_elements();
        renderer
    }

    /// Replace the content; the tree is untouched until the next render.
    pub fn update_content(&mut self, content: String)
        ensures
            final(self).content@ == content@,
            final(self).nodes == old(self).nodes,
    {
        self.content = content;
    }

    /// Render the current content into the node tree.  The tree is a
    /// pure function of the content: rendering the same content twice
    /// yields the same tree.
    pub fn render_to_elements(&mut self)
        ensures
            final(self).content == old(self).content,
            nodes_view(final(self).nodes@) == node_tree_of(old(self).content@),
    {
        let events = parse_markdown(self.content.as_str());
        self.nodes = render_events(&events);
    }
}

} // verus!
