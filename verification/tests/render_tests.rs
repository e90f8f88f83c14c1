use mdedit::events::{MdAlert, MdAlign, MdEvent, MdTag, MdTagEnd};
use mdedit::markdown::{render_events, Context, MarkdownRenderer};
use mdedit::nodes::{ElemKind, Node};

fn text(s: &str) -> Node {
    Node::Text(s.to_string())
}

/// A heading keeps its literal marker prefix before its children.
#[test]
fn heading_and_paragraph_render() {
    let r = MarkdownRenderer::new("# Title\n\nBody".to_string());
    assert_eq!(
        r.nodes,
        vec![
            Node::Element(
                ElemKind::Heading { level: 1, id: None, class: None },
                vec![text("# "), text("Title")],
            ),
            Node::Element(ElemKind::Paragraph, vec![text("Body")]),
        ]
    );
}

/// A strong span keeps the literal `**` markers around its children.
#[test]
fn strong_keeps_literal_markers() {
    let r = MarkdownRenderer::new("**bold**".to_string());
    assert_eq!(
        r.nodes,
        vec![Node::Element(
            ElemKind::Paragraph,
            vec![Node::Element(
                ElemKind::Strong,
                vec![text("**"), text("bold"), text("**")],
            )],
        )]
    );
}

/// A fenced code block is tagged with its language class.
#[test]
fn fenced_code_block_gets_language_class() {
    let r = MarkdownRenderer::new("```rust\ncode\n```".to_string());
    assert_eq!(
        r.nodes,
        vec![Node::Element(
            ElemKind::CodeBlock { class: Some("language-rust".to_string()) },
            vec![text("code<br />\n")],
        )]
    );
}

#[test]
fn fenced_code_block_without_language_has_no_class() {
    let r = MarkdownRenderer::new("```\ncode\n```".to_string());
    match &r.nodes[0] {
        Node::Element(ElemKind::CodeBlock { class }, _) => assert_eq!(*class, None),
        other => panic!("expected a code block, got {:?}", other),
    }
}

/// Rendering is a pure function of the content: the same content renders
/// to the same tree, twice over.
#[test]
fn render_is_deterministic() {
    let content = "# A\n\n* one\n* two\n\n**b** and *i*\n";
    let a = MarkdownRenderer::new(content.to_string());
    let b = MarkdownRenderer::new(content.to_string());
    assert_eq!(a.nodes, b.nodes);
    let mut c = MarkdownRenderer::new(String::new());
    c.update_content(content.to_string());
    c.render_to_elements();
    assert_eq!(c.nodes, a.nodes);
}

#[test]
fn update_content_leaves_tree_until_rerender() {
    let mut r = MarkdownRenderer::new("one".to_string());
    let before = format!("{:?}", r.nodes);
    r.update_content("two".to_string());
    assert_eq!(format!("{:?}", r.nodes), before);
    r.render_to_elements();
    assert_eq!(r.nodes, vec![Node::Element(ElemKind::Paragraph, vec![text("two")])]);
}

/// Text runs are HTML-escaped; a heading id would be too.
#[test]
fn text_is_escaped() {
    let r = MarkdownRenderer::new("a & b < c".to_string());
    // The parser splits the run around the escaped character; each text
    // node is escaped.
    assert_eq!(
        r.nodes,
        vec![Node::Element(
            ElemKind::Paragraph,
            vec![text("a &amp; b "), text("&lt;"), text(" c")],
        )]
    );
}

/// Inline code is body-escaped.
#[test]
fn inline_code_is_escaped() {
    let r = MarkdownRenderer::new("`a<b>`".to_string());
    assert_eq!(
        r.nodes,
        vec![Node::Element(
            ElemKind::Paragraph,
            vec![Node::InlineCode("a&lt;b&gt;".to_string())],
        )]
    );
}

/// A link target runs through the href escape.
#[test]
fn link_href_is_escaped() {
    let events = vec![
        MdEvent::Start(MdTag::Paragraph),
        MdEvent::Start(MdTag::Link {
            email: false,
            dest: "http://e.com/a b".to_string(),
            title: String::new(),
        }),
        MdEvent::Text("x".to_string()),
        MdEvent::End(MdTagEnd::Other),
        MdEvent::End(MdTagEnd::Other),
    ];
    let nodes = render_events(&events);
    assert_eq!(
        nodes,
        vec![Node::Element(
            ElemKind::Paragraph,
            vec![Node::Element(
                ElemKind::Link { href: "http://e.com/a%20b".to_string(), title: None },
                vec![text("x")],
            )],
        )]
    );
}

#[test]
fn email_link_gets_mailto_prefix() {
    let events = vec![
        MdEvent::Start(MdTag::Link {
            email: true,
            dest: "a@b.c".to_string(),
            title: String::new(),
        }),
        MdEvent::End(MdTagEnd::Other),
    ];
    let nodes = render_events(&events);
    match &nodes[0] {
        Node::Element(ElemKind::Link { href, .. }, _) => assert_eq!(href, "mailto:a@b.c"),
        other => panic!("expected a link, got {:?}", other),
    }
}

#[test]
fn markdown_link_parses_and_renders() {
    let r = MarkdownRenderer::new("[t](http://x.y)".to_string());
    assert_eq!(
        r.nodes,
        vec![Node::Element(
            ElemKind::Paragraph,
            vec![Node::Element(
                ElemKind::Link { href: "http://x.y".to_string(), title: None },
                vec![text("t")],
            )],
        )]
    );
}

#[test]
fn lists_render_with_start_attribute_only_when_not_one() {
    let r = MarkdownRenderer::new("1. a\n2. b".to_string());
    match &r.nodes[0] {
        Node::Element(ElemKind::OrderedList { start }, items) => {
            assert_eq!(*start, None);
            assert_eq!(items.len(), 2);
        },
        other => panic!("expected an ordered list, got {:?}", other),
    }
    let r = MarkdownRenderer::new("5. a\n6. b".to_string());
    match &r.nodes[0] {
        Node::Element(ElemKind::OrderedList { start }, _) => assert_eq!(*start, Some(5)),
        other => panic!("expected an ordered list, got {:?}", other),
    }
    let r = MarkdownRenderer::new("* a\n* b".to_string());
    assert!(matches!(&r.nodes[0], Node::Element(ElemKind::UnorderedList, _)));
}

#[test]
fn rule_and_breaks_render() {
    let r = MarkdownRenderer::new("a\n\n---\n\nb".to_string());
    assert_eq!(
        r.nodes,
        vec![
            Node::Element(ElemKind::Paragraph, vec![text("a")]),
            Node::Rule,
            Node::Element(ElemKind::Paragraph, vec![text("b")]),
        ]
    );
}

#[test]
fn soft_break_renders_between_lines() {
    let r = MarkdownRenderer::new("a\nb".to_string());
    assert_eq!(
        r.nodes,
        vec![Node::Element(ElemKind::Paragraph, vec![text("a"), Node::Break, text("b")])]
    );
}

/// Typed blockquotes carry their fixed class name; raw events drive the
/// kinds the default parser does not emit.
#[test]
fn alert_blockquote_gets_class() {
    let events = vec![
        MdEvent::Start(MdTag::BlockQuote(Some(MdAlert::Warning))),
        MdEvent::Start(MdTag::Paragraph),
        MdEvent::Text("w".to_string()),
        MdEvent::End(MdTagEnd::Other),
        MdEvent::End(MdTagEnd::Other),
    ];
    let nodes = render_events(&events);
    assert_eq!(
        nodes,
        vec![Node::Element(
            ElemKind::BlockQuote { class: Some("markdown-alert-warning".to_string()) },
            vec![Node::Element(ElemKind::Paragraph, vec![text("w")])],
        )]
    );
}

#[test]
fn plain_blockquote_has_no_class() {
    let r = MarkdownRenderer::new("> q".to_string());
    match &r.nodes[0] {
        Node::Element(ElemKind::BlockQuote { class }, _) => assert_eq!(*class, None),
        other => panic!("expected a blockquote, got {:?}", other),
    }
}

/// Table cells resolve their alignment by column index; the head state
/// flips to body when the head section closes, and the index resets at
/// each row.
#[test]
fn table_cells_resolve_alignment_and_section() {
    let events = vec![
        MdEvent::Start(MdTag::Table(vec![MdAlign::Left, MdAlign::Right])),
        MdEvent::Start(MdTag::TableHead),
        MdEvent::Start(MdTag::TableCell),
        MdEvent::Text("h1".to_string()),
        MdEvent::End(MdTagEnd::TableCell),
        MdEvent::Start(MdTag::TableCell),
        MdEvent::Text("h2".to_string()),
        MdEvent::End(MdTagEnd::TableCell),
        MdEvent::End(MdTagEnd::TableHead),
        MdEvent::Start(MdTag::TableRow),
        MdEvent::Start(MdTag::TableCell),
        MdEvent::Text("b1".to_string()),
        MdEvent::End(MdTagEnd::TableCell),
        MdEvent::Start(MdTag::TableCell),
        MdEvent::Text("b2".to_string()),
        MdEvent::End(MdTagEnd::TableCell),
        MdEvent::Start(MdTag::TableCell),
        MdEvent::Text("b3".to_string()),
        MdEvent::End(MdTagEnd::TableCell),
        MdEvent::End(MdTagEnd::Other),
        MdEvent::End(MdTagEnd::Other),
    ];
    let nodes = render_events(&events);
    assert_eq!(
        nodes,
        vec![Node::Element(
            ElemKind::Table,
            vec![
                Node::Element(
                    ElemKind::TableHead,
                    vec![
                        Node::Element(
                            ElemKind::TableCell { header: true, align: MdAlign::Left },
                            vec![text("h1")],
                        ),
                        Node::Element(
                            ElemKind::TableCell { header: true, align: MdAlign::Right },
                            vec![text("h2")],
                        ),
                    ],
                ),
                Node::Element(
                    ElemKind::TableRow,
                    vec![
                        Node::Element(
                            ElemKind::TableCell { header: false, align: MdAlign::Left },
                            vec![text("b1")],
                        ),
                        Node::Element(
                            ElemKind::TableCell { header: false, align: MdAlign::Right },
                            vec![text("b2")],
                        ),
                        Node::Element(
                            ElemKind::TableCell { header: false, align: MdAlign::Unaligned },
                            vec![text("b3")],
                        ),
                    ],
                ),
            ],
        )]
    );
}

/// Footnote definitions are numbered in first-definition order; a
/// repeated definition keeps its number.  References take the current
/// registry size plus one without registering.
#[test]
fn footnote_numbering() {
    let events = vec![
        MdEvent::Start(MdTag::FootnoteDefinition("a".to_string())),
        MdEvent::End(MdTagEnd::Other),
        MdEvent::Start(MdTag::FootnoteDefinition("b".to_string())),
        MdEvent::End(MdTagEnd::Other),
        MdEvent::Start(MdTag::FootnoteDefinition("a".to_string())),
        MdEvent::End(MdTagEnd::Other),
        MdEvent::FootnoteReference("a".to_string()),
    ];
    let nodes = render_events(&events);
    assert_eq!(
        nodes,
        vec![
            Node::Element(
                ElemKind::FootnoteDefinition { id: "a".to_string(), number: 1 },
                vec![],
            ),
            Node::Element(
                ElemKind::FootnoteDefinition { id: "b".to_string(), number: 2 },
                vec![],
            ),
            Node::Element(
                ElemKind::FootnoteDefinition { id: "a".to_string(), number: 1 },
                vec![],
            ),
            Node::FootnoteReference { href: "#a".to_string(), number: 3 },
        ]
    );
}

/// Text inside a metadata block is suppressed entirely.
#[test]
fn metadata_block_suppresses_text() {
    let events = vec![
        MdEvent::Start(MdTag::MetadataBlock),
        MdEvent::Text("hidden".to_string()),
        MdEvent::End(MdTagEnd::MetadataBlock),
        MdEvent::Start(MdTag::Paragraph),
        MdEvent::Text("shown".to_string()),
        MdEvent::End(MdTagEnd::Other),
    ];
    let nodes = render_events(&events);
    assert_eq!(
        nodes,
        vec![
            Node::Element(ElemKind::Fragment, vec![]),
            Node::Element(ElemKind::Paragraph, vec![text("shown")]),
        ]
    );
}

/// Raw HTML passes through unescaped.
#[test]
fn raw_html_passes_through() {
    let events = vec![MdEvent::Html("<div class=\"x\">".to_string())];
    let nodes = render_events(&events);
    assert_eq!(nodes, vec![Node::RawHtml("<div class=\"x\">".to_string())]);
}

#[test]
fn task_list_markers_become_checkboxes() {
    let events = vec![
        MdEvent::TaskListMarker(true),
        MdEvent::TaskListMarker(false),
    ];
    let nodes = render_events(&events);
    assert_eq!(
        nodes,
        vec![Node::Checkbox { checked: true }, Node::Checkbox { checked: false }]
    );
}

#[test]
fn emphasis_kinds_keep_their_markers() {
    let cases = vec![
        (MdTag::Emphasis, ElemKind::Emphasis, "*"),
        (MdTag::Strong, ElemKind::Strong, "**"),
        (MdTag::Strikethrough, ElemKind::Strikethrough, "~~"),
        (MdTag::Subscript, ElemKind::Subscript, "~"),
        (MdTag::Superscript, ElemKind::Superscript, "^"),
    ];
    for (tag, kind, marker) in cases {
        let events = vec![
            MdEvent::Start(tag),
            MdEvent::Text("w".to_string()),
            MdEvent::End(MdTagEnd::Other),
        ];
        let nodes = render_events(&events);
        assert_eq!(
            nodes,
            vec![Node::Element(kind, vec![text(marker), text("w"), text(marker)])]
        );
    }
}

#[test]
fn heading_classes_join_escaped_with_spaces() {
    let events = vec![
        MdEvent::Start(MdTag::Heading {
            level: 2,
            id: Some("an<id>".to_string()),
            classes: vec!["one".to_string(), "t&wo".to_string()],
        }),
        MdEvent::Text("t".to_string()),
        MdEvent::End(MdTagEnd::Other),
    ];
    let nodes = render_events(&events);
    assert_eq!(
        nodes,
        vec![Node::Element(
            ElemKind::Heading {
                level: 2,
                id: Some("an&lt;id&gt;".to_string()),
                class: Some("one t&amp;wo".to_string()),
            },
            vec![text("## "), text("t")],
        )]
    );
}

/// A close with no open frame ends the pass: the rest of the stream is
/// dropped.
#[test]
fn stray_close_stops_rendering() {
    let events = vec![
        MdEvent::Rule,
        MdEvent::End(MdTagEnd::Other),
        MdEvent::Rule,
    ];
    let nodes = render_events(&events);
    assert_eq!(nodes, vec![Node::Rule]);
}

/// Frames still open when the events run out are closed, innermost first.
#[test]
fn unclosed_frames_are_unwound() {
    let events = vec![
        MdEvent::Start(MdTag::Paragraph),
        MdEvent::Start(MdTag::Emphasis),
        MdEvent::Text("e".to_string()),
    ];
    let nodes = render_events(&events);
    assert_eq!(
        nodes,
        vec![Node::Element(
            ElemKind::Paragraph,
            vec![Node::Element(ElemKind::Emphasis, vec![text("*"), text("e"), text("*")])],
        )]
    );
}

#[test]
fn math_events_render_escaped() {
    let events = vec![
        MdEvent::InlineMath("a<b".to_string()),
        MdEvent::DisplayMath("c&d".to_string()),
    ];
    let nodes = render_events(&events);
    assert_eq!(
        nodes,
        vec![
            Node::MathInline("a&lt;b".to_string()),
            Node::MathDisplay("c&amp;d".to_string()),
        ]
    );
}

#[test]
fn context_is_fresh_per_render() {
    // Footnote numbers restart at one on every render pass.
    let events = vec![
        MdEvent::Start(MdTag::FootnoteDefinition("n".to_string())),
        MdEvent::End(MdTagEnd::Other),
    ];
    let first = render_events(&events);
    let second = render_events(&events);
    assert_eq!(first, second);
    let _ = Context::new();
}

#[test]
fn indented_code_block_has_no_class() {
    let r = MarkdownRenderer::new("    indented".to_string());
    assert_eq!(
        r.nodes,
        vec![Node::Element(
            ElemKind::CodeBlock { class: None },
            vec![text("indented")],
        )]
    );
}

#[test]
fn image_renders_with_escaped_source() {
    let r = MarkdownRenderer::new("![alt](img.png)".to_string());
    assert_eq!(
        r.nodes,
        vec![Node::Element(
            ElemKind::Paragraph,
            vec![Node::Element(
                ElemKind::Image { src: "img.png".to_string(), title: None },
                vec![text("alt")],
            )],
        )]
    );
}

#[test]
fn html_block_passes_markup_through() {
    let r = MarkdownRenderer::new("<div>\nhi\n</div>".to_string());
    assert_eq!(
        r.nodes,
        vec![Node::Element(
            ElemKind::Fragment,
            vec![
                Node::RawHtml("<div>\n".to_string()),
                Node::RawHtml("hi\n".to_string()),
                Node::RawHtml("</div>".to_string()),
            ],
        )]
    );
}

#[test]
fn empty_content_renders_to_nothing() {
    let r = MarkdownRenderer::new(String::new());
    assert_eq!(r.nodes, Vec::<Node>::new());
}
