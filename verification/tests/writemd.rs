use fiction_tools::add_copyright::{
    try_for_each_mut, AddCopyrightPreprocessor, AddCopyrightPreprocessorConfig, FileSet,
};
use fiction_tools::book::{BookItem, Chapter};
use fiction_tools::bookir::events::{read_events, Construct, MdEvent, MdTag, MdTagEnd};
use fiction_tools::config::Config;
use fiction_tools::epub::xhtml::{md_href_of, write_md, xml_to_io_error, WriteMdError};
use fiction_tools::helpers::{visit_chapters, Visit};
use fiction_tools::pdf::config::PdfConfig;
use fiction_tools::pdf::data::{write_char_string, write_string};
use fiction_tools::pdf::file::{ten_digit_string, write_file_end, write_xref_table};
use fiction_tools::xhtml::{IoErrorKind, XmlOut, XmlWriteError};

fn show(events: &[XmlOut]) -> String {
    let mut text = String::new();
    for event in events {
        match event {
            XmlOut::StartElement { name, attrs, .. } => {
                text.push('<');
                text.push_str(name);
                for (key, value) in attrs {
                    text.push_str(&format!(" {key}=\"{value}\""));
                }
                text.push('>');
            }
            XmlOut::EndElement => text.push_str("</>"),
            XmlOut::EndNamed(name) => text.push_str(&format!("</{name}>")),
            XmlOut::Characters(t) => text.push_str(t),
            XmlOut::CData(t) => text.push_str(&format!("[[{t}]]")),
            XmlOut::Comment(t) => text.push_str(&format!("<!--{t}-->")),
            XmlOut::StartDocument(_) => text.push_str("<?xml?>"),
        }
    }
    text
}

fn md(source: &str) -> Result<String, WriteMdError> {
    let events = read_events(source, 0x005e);
    let mut out = Vec::new();
    write_md(&events, &mut out).map(|()| show(&out))
}

#[test]
fn paragraphs_and_styles() {
    assert_eq!(md("a *b* **c** ~~d~~ `e`").unwrap(),
        "<body><p>a <i>b</> <b>c</> <s>d</> <span class=\"code\">e</></></>");
    assert_eq!(md("").unwrap(), "<body></>");
}

#[test]
fn headings_lists_and_quotes() {
    assert_eq!(md("# T {#i}\n\n## U").unwrap(), "<body><h1 id=\"i\">T</><h2>U</></>");
    assert_eq!(md("- a\n- b").unwrap(), "<body><ul><li>a</><li>b</></></>");
    assert_eq!(md("7. a").unwrap(), "<body><ol start=\"7\"><li>a</></></>");
    assert_eq!(md("> q").unwrap(), "<body><blockquote><p>q</></></>");
    assert_eq!(md("```\nc\n```").unwrap(), "<body><div class=\"code\">c\n</></>");
}

#[test]
fn breaks_and_rules() {
    assert_eq!(md("a\nb  \nc\n\n---").unwrap(),
        "<body><p>a<br></>b<br></><br></>c</><hr></></>");
}

#[test]
fn tables_are_written() {
    assert_eq!(
        md("| a |\n|---|\n| b |").unwrap(),
        "<body><table><thead><td>a</></><tr><td>b</></></></>"
    );
}

#[test]
fn footnotes_and_tasks() {
    assert_eq!(
        md("x[^n]\n\n[^n]: note").unwrap(),
        "<body><p>x<sup><a href=\"#footnote-n\">n</></></><div id=\"footnote-n\"><p>note</></></>"
    );
    assert_eq!(md("- [x] done").unwrap(), "<body><ul><li>done</></></>");
}

#[test]
fn links_and_images() {
    assert_eq!(md("[a](b.md)").unwrap(), "<body><p><a href=\"b.xhtml\">a</></></>");
    assert_eq!(md("[a](mailto:b.md)").unwrap(), "<body><p><a href=\"mailto:b.md\">a</></></>");
    assert_eq!(md("![alt](i.png)").unwrap(), "<body><p><img src=\"i.png\" alt=\"alt\"></></></>");
    assert_eq!(md("![](i.png)").unwrap(), "<body><p><img src=\"i.png\" alt=\"no-alt\"></></></>");
    assert_eq!(md("![*a*](i.png)"), Err(WriteMdError::RichImage));
    assert_eq!(md_href_of("a.md"), "a.xhtml");
    assert_eq!(md_href_of("a:b.md"), "a:b.md");
    assert_eq!(md_href_of("a.txt"), "a.txt");
}

#[test]
fn image_at_the_end_of_the_stream() {
    let events = vec![MdEvent::Start(MdTag::Image {
        dest_url: "i.png".to_string(),
        title: String::new(),
    })];
    let mut out = vec![XmlOut::EndElement];
    assert_eq!(write_md(&events, &mut out), Err(WriteMdError::MissingEvent));
    assert_eq!(out, vec![XmlOut::EndElement]);
}

#[test]
fn raw_markup() {
    assert_eq!(
        md("a <span class=\"x\">b</span> c").unwrap(),
        "<body><p>a <span class=\"x\">b</span> c</></>"
    );
    assert_eq!(md("a <br/> b").unwrap(), "<body><p>a <br></br> b</></>");
    assert_eq!(md("a <!-- c --> b").unwrap(), "<body><p>a  b</></>");
    let mut out = Vec::new();
    let events = vec![MdEvent::Html("</x".to_string())];
    assert_eq!(write_md(&events, &mut out), Err(WriteMdError::NotAnElement));
    let events = vec![MdEvent::Html("<".to_string())];
    assert_eq!(write_md(&events, &mut out), Err(WriteMdError::InvalidMarkup));
    let events = vec![MdEvent::Html("<?pi x?>".to_string())];
    assert_eq!(write_md(&events, &mut out), Err(WriteMdError::UnexpectedMarkup));
    let events = vec![MdEvent::Html("<a><![CDATA[x]]></a>".to_string())];
    assert_eq!(write_md(&events, &mut out), Ok(()));
    assert_eq!(show(&out), "<body><a></>");
}

#[test]
fn constructs_without_an_element() {
    let mut out = Vec::new();
    for construct in [
        Construct::DefinitionList,
        Construct::DefinitionListTitle,
        Construct::DefinitionListDefinition,
        Construct::MetadataBlock,
    ] {
        let events = vec![MdEvent::Start(MdTag::Unsupported(construct))];
        assert_eq!(write_md(&events, &mut out), Err(WriteMdError::Unsupported(construct)));
    }
    let events = vec![MdEvent::Math("x".to_string())];
    assert_eq!(write_md(&events, &mut out), Err(WriteMdError::Unsupported(Construct::Math)));
    let events = vec![
        MdEvent::Start(MdTag::HtmlBlock),
        MdEvent::End(MdTagEnd::HtmlBlock),
        MdEvent::End(MdTagEnd::Paragraph),
    ];
    assert_eq!(write_md(&events, &mut out), Ok(()));
    assert_eq!(show(&out), "<body></></>");
}

#[test]
fn refusals_of_the_writer() {
    let io = xml_to_io_error(XmlWriteError::EndElementNameIsNotSpecified);
    assert_eq!(io.kind, IoErrorKind::InvalidInput);
    assert_eq!(io, fiction_tools::xhtml::xml_to_io_error(XmlWriteError::EndElementNameIsNotSpecified));
}

fn chapter(name: &str, subs: Vec<BookItem>) -> BookItem {
    BookItem::Chapter(Chapter {
        name: name.to_string(),
        content: "x !{#copyright} y".to_string(),
        sub_items: subs,
        path: Some(format!("{name}.md")),
        source_path: Some(format!("{name}.md")),
    })
}

#[test]
fn walk_over_a_book() {
    let items = vec![
        chapter("a", vec![chapter("a1", vec![]), BookItem::Separator]),
        BookItem::PartTitle("P".to_string()),
        chapter("b", vec![]),
    ];
    let steps: Vec<String> = visit_chapters(&items)
        .iter()
        .map(|step| match step {
            Visit::Item(BookItem::Chapter(ch)) => ch.name.clone(),
            Visit::Item(BookItem::PartTitle(t)) => format!("[{t}]"),
            Visit::Item(BookItem::Separator) => "---".to_string(),
            Visit::AfterDescent => "^".to_string(),
        })
        .collect();
    assert_eq!(steps, vec!["a", "a1", "^", "---", "^", "[P]", "b", "^"]);
    assert!(visit_chapters(&Vec::new()).is_empty());
}

#[test]
fn stub_goes_into_every_chapter() {
    let config = AddCopyrightPreprocessorConfig {
        command: String::new(),
        after: vec![],
        renderers: vec![],
        copyright_stub: None,
        base_set: FileSet { included: None, excluded: vec!["b.md".to_string()] },
        renderer_sets: vec![],
    };
    let mut draft = chapter("d", vec![]);
    if let BookItem::Chapter(ch) = &mut draft {
        ch.path = None;
    }
    let items = vec![
        chapter("a", vec![chapter("a1", vec![])]),
        BookItem::PartTitle("P".to_string()),
        chapter("b", vec![]),
        BookItem::Separator,
        draft,
    ];
    let updated = try_for_each_mut(items, &config, "html", "src", "STUB").unwrap();
    assert_eq!(updated.len(), 5);
    let content = |item: &BookItem| match item {
        BookItem::Chapter(ch) => ch.content.clone(),
        _ => String::new(),
    };
    assert_eq!(content(&updated[0]), "x STUB\n\n y");
    match &updated[0] {
        BookItem::Chapter(ch) => {
            assert_eq!(content(&ch.sub_items[0]), "x STUB\n\n y");
            assert_eq!(ch.name, "a");
        }
        other => panic!("unexpected item {other:?}"),
    }
    assert_eq!(updated[1], BookItem::PartTitle("P".to_string()));
    assert_eq!(content(&updated[2]), "x  y");
    assert_eq!(updated[3], BookItem::Separator);
    assert_eq!(content(&updated[4]), "x !{#copyright} y");
    let again = AddCopyrightPreprocessor {}
        .run(vec![chapter("a", vec![])], &config, "html", "src", "S")
        .unwrap();
    assert_eq!(content(&again[0]), "x S\n\n y");
}

#[test]
fn pdf_strings() {
    assert_eq!(write_string("plain"), "plain");
    assert_eq!(write_string("a(b)c"), "a#050b#051c");
    assert_eq!(write_string("x\\y\nz\r"), "x#134y#012z#015");
    assert_eq!(write_string(""), "");
    assert_eq!(write_char_string("a("), "\u{feff}a#050");
    assert_eq!(write_char_string("a(").as_bytes()[..3], [0xef, 0xbb, 0xbf]);
}

#[test]
fn pdf_frame() {
    assert_eq!(ten_digit_string(0), "0000000000");
    assert_eq!(ten_digit_string(42), "0000000042");
    assert_eq!(ten_digit_string(u32::MAX), "4294967295");
    assert_eq!(
        write_xref_table(&vec![15, 1234]),
        "xref\n0 3\n0000000000 65535 f\r\n0000000015 00000 n\r\n0000001234 00000 n\r\n"
    );
    assert_eq!(write_xref_table(&Vec::new()), "xref\n0 1\n0000000000 65535 f\r\n");
    assert_eq!(write_file_end(99), "startxref\n99\n%%EOF\n");
    assert_eq!(fiction_tools::pdf::file::HEADER, "%PDF-2.0\n");
    assert_eq!(fiction_tools::pdf::file::UTF8_MARKER, "%\u{1F980}\n");
    assert_eq!(PdfConfig::default().shared().outputs().len(), 1);
}
