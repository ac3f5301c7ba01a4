use fiction_tools::bookir::events::{
    read_events, Construct, MdCodeBlockKind, MdEvent, MdTag, MdTagEnd,
};
use fiction_tools::bookir::grammar::ParseError;
use fiction_tools::bookir::markup::{XmlElem, XmlToken};
use fiction_tools::bookir::{
    classify, destination_is_external, fragment, markdown_options, parse_chapter, parse_events,
    read_fragment,
    Attributes, BreakType, CodeBlock, Heading, HeadingLevel, InlineXhtml, Link, List, ListItem,
    ListStyle, Markup, RichText, RichTextOptions, RichTextParser, XmlNode,
};

fn text(s: &str) -> RichText {
    RichText::RawText(s.to_string())
}

fn parse(s: &str) -> Vec<RichText> {
    parse_chapter(s, RichTextOptions::default()).unwrap()
}

fn style(bold: bool, italics: bool, strikethrough: bool) -> Attributes {
    Attributes { bold, italics, underline: false, strikethrough }
}

#[test]
fn triple_emphasis_gives_one_styled_run() {
    let expected = vec![RichText::Paragraph(vec![RichText::Stylised(
        style(true, true, false),
        vec![text("text")],
    )])];
    assert_eq!(parse("***text***"), expected);
    assert_eq!(parse("**_text_**"), expected);
    assert_eq!(parse("_**text**_"), expected);
}

#[test]
fn all_three_styles_merge() {
    assert_eq!(
        parse("~~***text***~~"),
        vec![RichText::Paragraph(vec![RichText::Stylised(
            style(true, true, true),
            vec![text("text")]
        )])]
    );
}

#[test]
fn styled_run_beside_text_is_wrapped() {
    assert_eq!(
        parse("**a *b***"),
        vec![RichText::Paragraph(vec![RichText::Stylised(
            style(true, false, false),
            vec![text("a "), RichText::Stylised(style(false, true, false), vec![text("b")])]
        )])]
    );
}

#[test]
fn heading_without_directive_gets_a_slug() {
    assert_eq!(
        parse("# Title"),
        vec![RichText::Heading(Heading {
            level: HeadingLevel::H1,
            text: "Title".to_string(),
            id: "title".to_string()
        })]
    );
}

#[test]
fn heading_with_directive_keeps_its_id() {
    assert_eq!(
        parse("# My Title {#custom-id}"),
        vec![RichText::Heading(Heading {
            level: HeadingLevel::H1,
            text: "My Title".to_string(),
            id: "custom-id".to_string()
        })]
    );
}

#[test]
fn heading_levels_are_kept() {
    let nodes = parse("## Two\n\n###### Six");
    assert_eq!(
        nodes,
        vec![
            RichText::Heading(Heading {
                level: HeadingLevel::H2,
                text: "Two".to_string(),
                id: "two".to_string()
            }),
            RichText::Heading(Heading {
                level: HeadingLevel::H6,
                text: "Six".to_string(),
                id: "six".to_string()
            }),
        ]
    );
}

#[test]
fn rich_content_in_heading_is_refused() {
    assert_eq!(
        parse_chapter("# A *b*", RichTextOptions::default()),
        Err(ParseError::Unsupported(Construct::RichHeading))
    );
}

#[test]
fn external_and_internal_links() {
    assert_eq!(
        parse("[a](http://example.com/x)"),
        vec![RichText::Paragraph(vec![RichText::ExternalLink(Link::Text {
            title: String::new(),
            elems: vec![text("a")],
            dest_url: "http://example.com/x".to_string()
        })])]
    );
    assert_eq!(
        parse("[b](chapter2.md \"T\")"),
        vec![RichText::Paragraph(vec![RichText::InternalLink(Link::Text {
            title: "T".to_string(),
            elems: vec![text("b")],
            dest_url: "chapter2.md".to_string()
        })])]
    );
}

#[test]
fn external_and_internal_images() {
    assert_eq!(
        parse("![alt](https://example.com/i.png)"),
        vec![RichText::Paragraph(vec![RichText::ExternalImage(Link::Text {
            title: String::new(),
            elems: vec![text("alt")],
            dest_url: "https://example.com/i.png".to_string()
        })])]
    );
    assert_eq!(
        parse("![alt](img/i.png)"),
        vec![RichText::Paragraph(vec![RichText::InternalImage(Link::Text {
            title: String::new(),
            elems: vec![text("alt")],
            dest_url: "img/i.png".to_string()
        })])]
    );
}

#[test]
fn destination_classification() {
    assert!(destination_is_external("http://example.com/x"));
    assert!(destination_is_external("x://"));
    assert!(!destination_is_external("chapter2.md"));
    assert!(!destination_is_external("mailto:a@b.c"));
    assert!(!destination_is_external(":/"));
    assert!(!destination_is_external(""));
}

#[test]
fn parsing_twice_gives_equal_trees() {
    let source = "# T\n\nSome *text* with `code` and a [link](a.md).\n\n- one\n- two\n\n> quote\n";
    assert_eq!(parse(source), parse(source));
    let events = read_events(source, markdown_options(RichTextOptions::default()));
    assert_eq!(events, read_events(source, markdown_options(RichTextOptions::default())));
    assert_eq!(parse_events(&events), parse_events(&events));
    assert_eq!(parse_events(&events).unwrap(), parse(source));
}

#[test]
fn table_is_refused() {
    let source = "before\n\n| a | b |\n|---|---|\n| 1 | 2 |\n\nafter\n";
    assert_eq!(
        parse_chapter(source, RichTextOptions::default()),
        Err(ParseError::Unsupported(Construct::Table))
    );
}

#[test]
fn table_start_event_anywhere_is_refused() {
    let events = vec![
        MdEvent::Start(MdTag::BlockQuote),
        MdEvent::Start(MdTag::Paragraph),
        MdEvent::Text("a".to_string()),
        MdEvent::End(MdTagEnd::Paragraph),
        MdEvent::Start(MdTag::Unsupported(Construct::Table)),
        MdEvent::End(MdTagEnd::Unsupported(Construct::Table)),
        MdEvent::End(MdTagEnd::BlockQuote),
    ];
    assert_eq!(parse_events(&events), Err(ParseError::Unsupported(Construct::Table)));
}

#[test]
fn task_list_marker_is_refused() {
    let events = vec![MdEvent::TaskListMarker(true)];
    assert_eq!(parse_events(&events), Err(ParseError::Unsupported(Construct::TaskListMarker)));
}

#[test]
fn footnote_definition_and_definition_list_are_refused() {
    let events = vec![MdEvent::Start(MdTag::FootnoteDefinition("n".to_string()))];
    assert_eq!(parse_events(&events), Err(ParseError::Unsupported(Construct::FootnoteDefinition)));
    let events = vec![MdEvent::Start(MdTag::Unsupported(Construct::DefinitionList))];
    assert_eq!(parse_events(&events), Err(ParseError::Unsupported(Construct::DefinitionList)));
    let events = vec![MdEvent::Start(MdTag::Unsupported(Construct::MetadataBlock))];
    assert_eq!(parse_events(&events), Err(ParseError::Unsupported(Construct::MetadataBlock)));
}

#[test]
fn math_is_refused() {
    let options = RichTextOptions { math: true };
    assert_eq!(
        parse_chapter("inline $x$ math", options),
        Err(ParseError::Unsupported(Construct::Math))
    );
    assert_eq!(
        parse("costs $5 and $6"),
        vec![RichText::Paragraph(vec![text("costs $5 and $6")])]
    );
}

#[test]
fn footnote_reference_is_an_internal_link() {
    let events = vec![MdEvent::FootnoteReference("n1".to_string())];
    assert_eq!(
        parse_events(&events),
        Ok(vec![RichText::InternalLink(Link::Footnote("n1".to_string()))])
    );
}

#[test]
fn stream_ending_inside_a_construct_is_refused() {
    let events = vec![MdEvent::Start(MdTag::Paragraph), MdEvent::Text("a".to_string())];
    assert_eq!(parse_events(&events), Err(ParseError::UnexpectedEnd));
    let events = vec![MdEvent::Start(MdTag::Heading { level: HeadingLevel::H1, id: None })];
    assert_eq!(parse_events(&events), Err(ParseError::UnexpectedEnd));
    let events = vec![MdEvent::Start(MdTag::CodeBlock(MdCodeBlockKind::Indented))];
    assert_eq!(parse_events(&events), Err(ParseError::UnexpectedEnd));
    let events = vec![MdEvent::Start(MdTag::List(None)), MdEvent::Start(MdTag::Item)];
    assert_eq!(parse_events(&events), Err(ParseError::UnexpectedEnd));
}

#[test]
fn closing_without_opening_is_refused() {
    let events = vec![MdEvent::Text("a".to_string()), MdEvent::End(MdTagEnd::Paragraph)];
    assert_eq!(parse_events(&events), Err(ParseError::UnexpectedEvent));
}

#[test]
fn emphasis_closed_by_another_tag_is_refused() {
    let events = vec![
        MdEvent::Start(MdTag::Emphasis),
        MdEvent::Text("a".to_string()),
        MdEvent::End(MdTagEnd::Paragraph),
    ];
    assert_eq!(parse_events(&events), Err(ParseError::UnexpectedEvent));
}

#[test]
fn style_follows_the_closing_tag() {
    let events = vec![
        MdEvent::Start(MdTag::Emphasis),
        MdEvent::Text("a".to_string()),
        MdEvent::End(MdTagEnd::Strong),
    ];
    assert_eq!(
        parse_events(&events),
        Ok(vec![RichText::Stylised(style(true, false, false), vec![text("a")])])
    );
}

#[test]
fn wrong_event_in_code_block_or_list_is_refused() {
    let events = vec![
        MdEvent::Start(MdTag::CodeBlock(MdCodeBlockKind::Indented)),
        MdEvent::SoftBreak,
        MdEvent::End(MdTagEnd::CodeBlock),
    ];
    assert_eq!(parse_events(&events), Err(ParseError::UnexpectedEvent));
    let events = vec![
        MdEvent::Start(MdTag::List(None)),
        MdEvent::Text("a".to_string()),
        MdEvent::End(MdTagEnd::List),
    ];
    assert_eq!(parse_events(&events), Err(ParseError::UnexpectedEvent));
    let events = vec![MdEvent::Start(MdTag::Item), MdEvent::End(MdTagEnd::Item)];
    assert_eq!(parse_events(&events), Err(ParseError::UnexpectedEvent));
}

#[test]
fn code_blocks() {
    assert_eq!(
        parse("```rust\nfn main() {}\nlet x;\n```\n"),
        vec![RichText::CodeBlock(CodeBlock {
            lang: "rust".to_string(),
            content: "fn main() {}\nlet x;\n".to_string()
        })]
    );
    assert_eq!(
        parse("```\nplain\n```\n"),
        vec![RichText::CodeBlock(CodeBlock {
            lang: String::new(),
            content: "plain\n".to_string()
        })]
    );
    assert_eq!(
        parse("    indented\n"),
        vec![RichText::CodeBlock(CodeBlock {
            lang: String::new(),
            content: "indented\n".to_string()
        })]
    );
}

#[test]
fn lists() {
    assert_eq!(
        parse("- one\n- two\n"),
        vec![RichText::List(List {
            list_style: ListStyle::Unordered,
            elems: vec![ListItem(vec![text("one")]), ListItem(vec![text("two")])]
        })]
    );
    assert_eq!(
        parse("3. three\n4. four\n"),
        vec![RichText::List(List {
            list_style: ListStyle::Ordered(3),
            elems: vec![ListItem(vec![text("three")]), ListItem(vec![text("four")])]
        })]
    );
}

#[test]
fn nested_list() {
    assert_eq!(
        parse("- a\n  - b\n"),
        vec![RichText::List(List {
            list_style: ListStyle::Unordered,
            elems: vec![ListItem(vec![
                text("a"),
                RichText::List(List {
                    list_style: ListStyle::Unordered,
                    elems: vec![ListItem(vec![text("b")])]
                })
            ])]
        })]
    );
}

#[test]
fn block_quote_breaks_and_inline_code() {
    assert_eq!(
        parse("> a\n> b  \n> `c`\n\n---\n"),
        vec![
            RichText::BlockQuote(vec![RichText::Paragraph(vec![
                text("a"),
                RichText::TextBreak(BreakType::SoftLine),
                text("b"),
                RichText::TextBreak(BreakType::HardLine),
                RichText::InlineCode("c".to_string()),
            ])]),
            RichText::TextBreak(BreakType::Rule),
        ]
    );
}

#[test]
fn inline_element_with_children() {
    let elem = XmlElem {
        name: "span".to_string(),
        attrs: [("class".to_string(), "x".to_string())].into_iter().collect(),
    };
    assert_eq!(
        parse("a <span class=\"x\">b</span> c"),
        vec![RichText::Paragraph(vec![
            text("a "),
            RichText::Xhtml(InlineXhtml::Node(XmlNode::Block(elem, vec![text("b")]))),
            text(" c"),
        ])]
    );
}

#[test]
fn self_closing_inline_element() {
    let elem = XmlElem { name: "br".to_string(), attrs: Default::default() };
    assert_eq!(
        parse("a<br/>b"),
        vec![RichText::Paragraph(vec![
            text("a"),
            RichText::Xhtml(InlineXhtml::Node(XmlNode::Inline(elem))),
            text("b"),
        ])]
    );
}

#[test]
fn attributes_keep_their_order() {
    let nodes = parse("<i b=\"1\" a=\"2\" c=\"3\">x</i>");
    let expected = XmlElem::new(
        "i".to_string(),
        &vec![
            ("b".to_string(), "1".to_string()),
            ("a".to_string(), "2".to_string()),
            ("c".to_string(), "3".to_string()),
        ],
    );
    assert_eq!(
        expected.attributes(),
        vec![
            ("b".to_string(), "1".to_string()),
            ("a".to_string(), "2".to_string()),
            ("c".to_string(), "3".to_string()),
        ]
    );
    match &nodes[0] {
        RichText::Paragraph(children) => match &children[0] {
            RichText::Xhtml(InlineXhtml::Node(XmlNode::Block(elem, inner))) => {
                assert_eq!(elem.attributes(), expected.attributes());
                assert_eq!(elem.name, "i");
                assert_eq!(inner, &vec![text("x")]);
            }
            other => panic!("unexpected node {other:?}"),
        },
        other => panic!("unexpected node {other:?}"),
    }
}

#[test]
fn entering_a_key_twice_keeps_its_place() {
    let elem = XmlElem::new(
        "e".to_string(),
        &vec![
            ("a".to_string(), "1".to_string()),
            ("b".to_string(), "2".to_string()),
            ("a".to_string(), "3".to_string()),
        ],
    );
    assert_eq!(
        elem.attributes(),
        vec![("a".to_string(), "3".to_string()), ("b".to_string(), "2".to_string())]
    );
}

#[test]
fn mismatched_inline_element_is_refused() {
    assert_eq!(
        parse_chapter("<b>x</i>", RichTextOptions::default()),
        Err(ParseError::MalformedMarkup)
    );
}

#[test]
fn inline_element_closed_by_markdown_is_refused() {
    assert_eq!(
        parse_chapter("a <b> c", RichTextOptions::default()),
        Err(ParseError::MalformedMarkup)
    );
}

#[test]
fn stray_closing_tag_is_refused() {
    assert_eq!(
        parse_chapter("a </b> c", RichTextOptions::default()),
        Err(ParseError::UnexpectedEvent)
    );
}

#[test]
fn comment_and_cdata_events() {
    let events = vec![
        MdEvent::Html("<!-- note -->".to_string()),
        MdEvent::Html("<![CDATA[ a < b ]]>".to_string()),
    ];
    assert_eq!(
        parse_events(&events),
        Ok(vec![
            RichText::Xhtml(InlineXhtml::Comment(" note ".to_string())),
            RichText::Xhtml(InlineXhtml::CData(" a < b ".to_string())),
        ])
    );
}

#[test]
fn inline_comment_in_markdown() {
    assert_eq!(
        parse("a <!-- c --> b"),
        vec![RichText::Paragraph(vec![
            text("a "),
            RichText::Xhtml(InlineXhtml::Comment(" c ".to_string())),
            text(" b"),
        ])]
    );
}

#[test]
fn classification_of_markup() {
    assert_eq!(classify("<!--x-->"), Markup::Comment("x".to_string()));
    assert_eq!(classify("<!---->"), Markup::Comment(String::new()));
    assert_eq!(classify("<!-->"), Markup::Malformed);
    assert_eq!(classify("<!-- x"), Markup::Malformed);
    assert_eq!(classify("<![CDATA[x]]>"), Markup::CData("x".to_string()));
    assert_eq!(classify("<![CDATA[x"), Markup::Malformed);
    assert_eq!(classify("</ span >"), Markup::Closing("span".to_string()));
    assert_eq!(classify("</span>\n"), Markup::Malformed);
    assert_eq!(classify("<span>"), Markup::Opening);
    assert_eq!(classify("text"), Markup::Opening);
    assert_eq!(classify(""), Markup::Opening);
}

#[test]
fn fragments() {
    let (elem, closed) = read_fragment("<a href=\"x\">").unwrap();
    assert_eq!(elem.name, "a");
    assert_eq!(elem.attributes(), vec![("href".to_string(), "x".to_string())]);
    assert!(!closed);
    let (elem, closed) = read_fragment("<hr/>").unwrap();
    assert_eq!(elem.name, "hr");
    assert!(closed);
    let (_, closed) = read_fragment("<b></b>").unwrap();
    assert!(closed);
    assert_eq!(read_fragment("not markup"), Err(ParseError::MalformedMarkup));
    assert_eq!(read_fragment("<"), Err(ParseError::MalformedMarkup));
    assert_eq!(read_fragment(""), Err(ParseError::MalformedMarkup));
    assert_eq!(fragment(&Vec::new()), Err(ParseError::MalformedMarkup));
    assert_eq!(fragment(&vec![XmlToken::StartDocument]), Err(ParseError::MalformedMarkup));
    assert_eq!(fragment(&vec![XmlToken::Invalid]), Err(ParseError::MalformedMarkup));
    assert_eq!(
        fragment(&vec![XmlToken::StartDocument, XmlToken::Comment("c".to_string())]),
        Err(ParseError::MalformedMarkup)
    );
    let open = || XmlToken::StartElement { name: "a".to_string(), attrs: Vec::new() };
    assert_eq!(
        fragment(&vec![open(), XmlToken::EndElement { name: "b".to_string() }]),
        Err(ParseError::MalformedMarkup)
    );
    let (_, closed) =
        fragment(&vec![open(), XmlToken::EndElement { name: "a".to_string() }]).unwrap();
    assert!(closed);
    let (_, closed) = fragment(&vec![XmlToken::StartDocument, open(), XmlToken::Other]).unwrap();
    assert!(!closed);
    let (_, closed) = fragment(&vec![XmlToken::StartDocument, open()]).unwrap();
    assert!(!closed);
}

#[test]
fn html_block_markers_are_passed_over() {
    let events = vec![
        MdEvent::Start(MdTag::HtmlBlock),
        MdEvent::Html("<!-- c -->".to_string()),
        MdEvent::End(MdTagEnd::HtmlBlock),
    ];
    assert_eq!(
        parse_events(&events),
        Ok(vec![RichText::Xhtml(InlineXhtml::Comment(" c ".to_string()))])
    );
}

#[test]
fn parser_yields_nodes_one_by_one() {
    let mut parser = RichTextParser::new("a\n\nb", RichTextOptions::default());
    assert_eq!(parser.next(), Some(Ok(RichText::Paragraph(vec![text("a")]))));
    assert_eq!(parser.next(), Some(Ok(RichText::Paragraph(vec![text("b")]))));
    assert_eq!(parser.next(), None);
    assert_eq!(parser.next(), None);
    let parser = RichTextParser::new("a\n\nb", RichTextOptions::default());
    assert_eq!(
        parser.collect(),
        Ok(vec![RichText::Paragraph(vec![text("a")]), RichText::Paragraph(vec![text("b")])])
    );
}

#[test]
fn parser_stops_after_an_error() {
    let mut parser = RichTextParser::from_events(vec![
        MdEvent::TaskListMarker(false),
        MdEvent::Text("a".to_string()),
    ]);
    assert_eq!(parser.next(), Some(Err(ParseError::Unsupported(Construct::TaskListMarker))));
    assert_eq!(parser.next(), None);
}

#[test]
fn tokenizer_copies_events() {
    let events = read_events("# T {#i}\n\n~~s~~", markdown_options(RichTextOptions::default()));
    assert_eq!(
        events,
        vec![
            MdEvent::Start(MdTag::Heading { level: HeadingLevel::H1, id: Some("i".to_string()) }),
            MdEvent::Text("T".to_string()),
            MdEvent::End(MdTagEnd::Heading),
            MdEvent::Start(MdTag::Paragraph),
            MdEvent::Start(MdTag::Strikethrough),
            MdEvent::Text("s".to_string()),
            MdEvent::End(MdTagEnd::Strikethrough),
            MdEvent::End(MdTagEnd::Paragraph),
        ]
    );
}

#[test]
fn option_bits() {
    assert_eq!(markdown_options(RichTextOptions { math: false }), 0x084a);
    assert_eq!(markdown_options(RichTextOptions { math: true }), 0x0c4a);
    assert_eq!(read_events("~~s~~", 0), vec![
        MdEvent::Start(MdTag::Paragraph),
        MdEvent::Text("~~s~~".to_string()),
        MdEvent::End(MdTagEnd::Paragraph),
    ]);
}

#[test]
fn empty_chapter_is_empty() {
    assert_eq!(parse(""), Vec::new());
}
