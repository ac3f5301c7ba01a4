use fiction_tools::bookir::markup::XmlElem;
use fiction_tools::bookir::nav::{BookChapter, NavHeading, NavNode, NavTree};
use fiction_tools::bookir::{
    parse_chapter, Alignment, Attributes, Book, ExtraItem, Link, List, ListItem, ListStyle,
    RichText, RichTextOptions, Table,
};
use fiction_tools::epub::config::PackageId;
use fiction_tools::epub::info::EpubFileInfo;
use fiction_tools::epub::package::{EpubPackage, ItemProperty, ManifestItem};
use fiction_tools::epub::{write_epub, write_nav, EpubEntry};
use fiction_tools::text::decimal_string;
use fiction_tools::xhtml::{
    href_of, write_chapter, write_rich_node, xml_to_io_error, IoError, IoErrorKind, RenderError,
    XmlOut, XmlVersion, XmlWriteError,
};

fn show(events: &[XmlOut]) -> String {
    let mut text = String::new();
    for event in events {
        match event {
            XmlOut::StartDocument(XmlVersion::Version10) => text.push_str("<?1.0?>"),
            XmlOut::StartDocument(XmlVersion::Version11) => text.push_str("<?1.1?>"),
            XmlOut::StartElement { name, attrs, namespaces } => {
                text.push('<');
                text.push_str(name);
                for (prefix, uri) in namespaces {
                    text.push_str(&format!(" xmlns:{prefix}={uri}"));
                }
                for (key, value) in attrs {
                    text.push_str(&format!(" {key}=\"{value}\""));
                }
                text.push('>');
            }
            XmlOut::EndElement => text.push_str("</>"),
            XmlOut::EndNamed(name) => text.push_str(&format!("</{name}>")),
            XmlOut::Characters(t) => text.push_str(t),
            XmlOut::CData(t) => text.push_str(&format!("[[{t}]]")),
            XmlOut::Comment(t) => text.push_str(&format!("<!--{t}-->")),
        }
    }
    text
}

fn render(markdown: &str) -> String {
    let nodes = parse_chapter(markdown, RichTextOptions::default()).unwrap();
    let mut out = Vec::new();
    for node in &nodes {
        write_rich_node(node, &mut out).unwrap();
    }
    show(&out)
}

#[test]
fn paragraph_with_styles() {
    assert_eq!(render("a ***b*** ~~c~~"), "<p>a <b><i>b</></> <s>c</></>");
}

#[test]
fn styles_open_in_a_fixed_order() {
    let node = RichText::Stylised(
        Attributes { bold: true, italics: true, underline: true, strikethrough: true },
        vec![RichText::RawText("x".to_string())],
    );
    let mut out = Vec::new();
    write_rich_node(&node, &mut out).unwrap();
    assert_eq!(show(&out), "<s><u><b><i>x</></></></>");
    let plain = RichText::Stylised(Attributes::default(), vec![RichText::RawText("x".to_string())]);
    let mut out = Vec::new();
    write_rich_node(&plain, &mut out).unwrap();
    assert_eq!(show(&out), "x");
}

#[test]
fn headings_code_and_breaks() {
    assert_eq!(render("## Two words"), "<h2 id=\"two-words\">Two words</>");
    assert_eq!(render("`x<y`"), "<p><code>[[x<y]]</></>");
    assert_eq!(
        render("```rust\nfn f() {}\n```"),
        "<div style=\"font-family:monospace;background-color: #c9c9c9;\">[[fn f() {}\n]]</>"
    );
    assert_eq!(render("a\nb  \nc\n\n---"), "<p>a<br></>b<br></>c</><hr></>");
    assert_eq!(render("> q"), "<bq><p>q</></>");
}

#[test]
fn lists_are_written_with_their_start() {
    assert_eq!(render("- a\n- b"), "<ul><li>a</><li>b</></>");
    assert_eq!(render("12. a\n13. b"), "<ol start=\"12\"><li>a</><li>b</></>");
    let empty = RichText::List(List { list_style: ListStyle::Ordered(0), elems: vec![] });
    let mut out = Vec::new();
    write_rich_node(&empty, &mut out).unwrap();
    assert_eq!(show(&out), "<ol start=\"0\"></>");
    let one = RichText::List(List {
        list_style: ListStyle::Unordered,
        elems: vec![ListItem(vec![])],
    });
    let mut out = Vec::new();
    write_rich_node(&one, &mut out).unwrap();
    assert_eq!(show(&out), "<ul><li></></>");
}

#[test]
fn decimal_numerals() {
    assert_eq!(decimal_string(0), "0");
    assert_eq!(decimal_string(7), "7");
    assert_eq!(decimal_string(10), "10");
    assert_eq!(decimal_string(1234567890), "1234567890");
    assert_eq!(decimal_string(u64::MAX), "18446744073709551615");
}

#[test]
fn links_inside_the_book_point_to_xhtml() {
    assert_eq!(render("[a](ch2.md)"), "<p><a href=\"ch2.xhtml\">a</></>");
    assert_eq!(render("[a](ch2.md#x)"), "<p><a href=\"ch2.md#x\">a</></>");
    assert_eq!(render("[a](http://e.com/x.md)"), "<p><a href=\"http://e.com/x.md\">a</></>");
    assert_eq!(href_of("a/b.md"), "a/b.xhtml");
    assert_eq!(href_of(".md"), ".xhtml");
    assert_eq!(href_of("md"), "md");
    assert_eq!(href_of(""), "");
}

#[test]
fn images_take_their_raw_text_as_alt() {
    assert_eq!(render("![the alt](i.png)"), "<p><img src=\"i.png\" alt=\"the alt\">the alt</></>");
    assert_eq!(render("![](i.png)"), "<p><img src=\"i.png\" alt=\"\"></></>");
}

#[test]
fn image_with_rich_alt_is_refused() {
    let nodes = parse_chapter("![a *b*](i.png)", RichTextOptions::default()).unwrap();
    let mut out = vec![XmlOut::EndElement];
    assert_eq!(write_rich_node(&nodes[0], &mut out), Err(RenderError::RichAltText));
    assert_eq!(out, vec![XmlOut::EndElement]);
}

#[test]
fn footnote_links_and_tables_are_refused() {
    let mut out = Vec::new();
    let footnote = RichText::InternalLink(Link::Footnote("1".to_string()));
    assert_eq!(write_rich_node(&footnote, &mut out), Err(RenderError::FootnoteLink));
    let footnote = RichText::ExternalImage(Link::Footnote("1".to_string()));
    assert_eq!(write_rich_node(&footnote, &mut out), Err(RenderError::FootnoteLink));
    let table = RichText::Paragraph(vec![
        RichText::RawText("a".to_string()),
        RichText::Table(Table { align: vec![Alignment::Left], head: None, body: vec![] }),
    ]);
    assert_eq!(write_rich_node(&table, &mut out), Err(RenderError::Table));
    assert!(out.is_empty());
}

#[test]
fn first_error_in_document_order_wins() {
    let node = RichText::Paragraph(vec![
        RichText::InternalLink(Link::Footnote("1".to_string())),
        RichText::Table(Table { align: vec![], head: None, body: vec![] }),
    ]);
    assert_eq!(write_rich_node(&node, &mut Vec::new()), Err(RenderError::FootnoteLink));
}

#[test]
fn embedded_markup_is_written_back() {
    assert_eq!(
        render("a <span class=\"x\" id=\"y\">b</span> <br/> <!-- c -->"),
        "<p>a <span class=\"x\" id=\"y\">b</> <br></> <!-- c --></>"
    );
    let elem = XmlElem::new("e".to_string(), &vec![("k".to_string(), "v".to_string())]);
    let node = RichText::Xhtml(fiction_tools::bookir::InlineXhtml::Node(
        fiction_tools::bookir::XmlNode::Inline(elem),
    ));
    let mut out = Vec::new();
    write_rich_node(&node, &mut out).unwrap();
    assert_eq!(show(&out), "<e k=\"v\"></>");
    let cdata = RichText::Xhtml(fiction_tools::bookir::InlineXhtml::CData("d".to_string()));
    write_rich_node(&cdata, &mut out).unwrap();
    assert_eq!(show(&out), "<e k=\"v\"></>[[d]]");
}

fn chapter(title: &str, dest: &str, markdown: &str) -> NavNode {
    NavNode {
        heading: NavHeading::Chapter(
            title.to_string(),
            BookChapter {
                src_path: dest.to_string(),
                dest_path: dest.to_string(),
                content: parse_chapter(markdown, RichTextOptions::default()).unwrap(),
            },
        ),
        children: None,
    }
}

#[test]
fn chapter_document() {
    let node = chapter("T", "t.md", "hi");
    let NavHeading::Chapter(_, book) = &node.heading else { panic!("no chapter") };
    let mut out = Vec::new();
    write_chapter(book, &mut out).unwrap();
    assert_eq!(show(&out), "<?1.1?><html xmlns:=http://www.w3.org/1999/xhtml><body><p>hi</></></>");
    let bad = BookChapter {
        src_path: "b.md".to_string(),
        dest_path: "b.md".to_string(),
        content: vec![RichText::Table(Table { align: vec![], head: None, body: vec![] })],
    };
    let mut out = vec![XmlOut::EndElement];
    assert_eq!(write_chapter(&bad, &mut out), Err(RenderError::Table));
    assert_eq!(out, vec![XmlOut::EndElement]);
}

fn sample_tree() -> NavTree {
    let mut first = chapter("One", "part/one.md", "# One");
    first.children = Some(NavTree::from_vec(vec![chapter("Sub", "part/sub.md", "s")]));
    NavTree::from_vec(vec![
        first,
        NavNode {
            heading: NavHeading::Heading("Part".to_string()),
            children: Some(NavTree::from_vec(vec![NavNode {
                heading: NavHeading::UnboundChapter("Draft".to_string()),
                children: None,
            }])),
        },
    ])
}

#[test]
fn table_of_contents_list() {
    let mut out = Vec::new();
    write_nav(&sample_tree(), &mut out);
    assert_eq!(
        show(&out),
        "<ol><li><a href=\"part/one.xhtml\">One</><ol><li><a href=\"part/sub.xhtml\">Sub</></></></>\
         <li><span>Part</><ol><li><span>Draft</></></></></>"
    );
    let mut out = Vec::new();
    write_nav(&NavTree::new(), &mut out);
    assert_eq!(show(&out), "<ol></>");
}

fn info() -> EpubFileInfo {
    EpubFileInfo {
        title: "Book".to_string(),
        ident: PackageId::Isbn { isbn: "123".to_string() },
        lang: "en".to_string(),
        creators: vec!["A".to_string(), "B".to_string()],
    }
}

#[test]
fn package_ids_are_urns() {
    assert_eq!(PackageId::Isbn { isbn: "123".to_string() }.to_string(), "urn:isbn:123");
    assert_eq!(PackageId::Oid { oid: "1.2.3".to_string() }.to_string(), "urn:oid:1.2.3");
    assert_eq!(
        PackageId::Uuid { uuid: 0xa1a2a3a4b1b2c1c2d1d2d3d4d5d6d7d8 }.to_string(),
        "urn:uuid:a1a2a3a4-b1b2-c1c2-d1d2-d3d4d5d6d7d8"
    );
    assert_eq!(
        PackageId::Uuid { uuid: 0 }.to_string(),
        "urn:uuid:00000000-0000-0000-0000-000000000000"
    );
}

#[test]
fn metadata_events() {
    let mut out = Vec::new();
    info().write_metadata("2024-01-02T03:04:05Z", &mut out);
    assert_eq!(
        show(&out),
        "<dc:identifier id=\"primary-ident\">urn:isbn:123</><dc:title>Book</>\
         <dc:language>en</><dc:creator>A</><dc:creator>B</>\
         <meta property=\"dcterms:modified\">2024-01-02T03:04:05Z</>"
    );
}

fn item(id: &str, spine: bool) -> ManifestItem {
    ManifestItem {
        id: id.to_string(),
        path: format!("{id}.xhtml"),
        media_type: "application/xhtml+xml".to_string(),
        properties: vec![],
        fallback: None,
        spine,
    }
}

#[test]
fn manifest_items() {
    let mut out = Vec::new();
    item("a", true).serialize_item(&mut out);
    assert_eq!(show(&out), "<item href=\"a.xhtml\" id=\"a\" media-type=\"application/xhtml+xml\"></>");
    let mut full = item("n", false);
    full.properties = vec![ItemProperty::Nav, ItemProperty::Scripted, ItemProperty::CoverImage];
    full.fallback = Some("a".to_string());
    let mut out = Vec::new();
    full.serialize_item(&mut out);
    assert_eq!(
        show(&out),
        "<item href=\"n.xhtml\" id=\"n\" media-type=\"application/xhtml+xml\" \
         properties=\"nav scripted cover-image\" fallback=\"a\"></>"
    );
    let mut out = Vec::new();
    full.serialize_spine(&mut out);
    assert!(out.is_empty());
    item("a", true).serialize_spine(&mut out);
    assert_eq!(show(&out), "<itemref idref=\"a\"></>");
}

#[test]
fn item_property_names() {
    assert_eq!(ItemProperty::CoverImage.to_string(), "cover-image");
    assert_eq!(ItemProperty::MathML.to_string(), "mathml");
    assert_eq!(ItemProperty::Nav.to_string(), "nav");
    assert_eq!(ItemProperty::RemoteResources.to_string(), "remote-resources");
    assert_eq!(ItemProperty::Scripted.to_string(), "scripted");
    assert_eq!(ItemProperty::Svg.as_str(), "svg");
}

#[test]
fn package_document() {
    let package = EpubPackage { info: info(), manifest: vec![item("a", true), item("b", false)] };
    let mut out = Vec::new();
    package.serialize("NOW", &mut out);
    assert_eq!(
        show(&out),
        "<package xmlns:=http://www.idpf.org/2007/opf xmlns:dc=http://purl.org/dc/elements/1.1/ \
         unique-identifier=\"primary-ident\" version=\"3.0\"><metadata>\
         <dc:identifier id=\"primary-ident\">urn:isbn:123</><dc:title>Book</>\
         <dc:language>en</><dc:creator>A</><dc:creator>B</>\
         <meta property=\"dcterms:modified\">NOW</></>\
         <manifest><item href=\"a.xhtml\" id=\"a\" media-type=\"application/xhtml+xml\"></>\
         <item href=\"b.xhtml\" id=\"b\" media-type=\"application/xhtml+xml\"></></>\
         <spine><itemref idref=\"a\"></></></>"
    );
}

#[test]
fn archive_layout() {
    let book = Book {
        title: "Book".to_string(),
        tree: sample_tree(),
        extra_files: vec![ExtraItem {
            src_path: "/src/img/a.png".to_string(),
            dest_path: "img/a.png".to_string(),
            content_type: "image/png".to_string(),
        }],
        authors: vec!["A".to_string()],
        id: "book".to_string(),
    };
    let archive = write_epub(&book, info(), "book", "NOW").unwrap();
    assert_eq!(archive.comment, "Book");
    let paths: Vec<String> = archive
        .entries
        .iter()
        .map(|entry| match entry {
            EpubEntry::Stored { path, text } => format!("{path}={text}"),
            EpubEntry::Document { path, .. } => path.clone(),
            EpubEntry::Copy { path, source } => format!("{path}<-{source}"),
        })
        .collect();
    assert_eq!(
        paths,
        vec![
            "mimetype=application/epub+zip",
            "part/one.xhtml",
            "part/sub.xhtml",
            "nav.xhtml",
            "img/a.png<-/src/img/a.png",
            "book.opf",
            "META-INF/container.xml",
        ]
    );
    let EpubEntry::Document { events, .. } = &archive.entries[5] else { panic!("no package") };
    let text = show(events);
    assert!(text.starts_with("<?1.0?><package "));
    assert!(text.contains(
        "<manifest><item href=\"part/one.xhtml\" id=\"one\" media-type=\"application/xhtml+xml\"></>\
         <item href=\"part/sub.xhtml\" id=\"sub\" media-type=\"application/xhtml+xml\"></>\
         <item href=\"nav.xhtml\" id=\"nav-toc\" media-type=\"application/xhtml+xml\" properties=\"nav\"></>\
         <item href=\"img/a.png\" id=\"non-md-res3\" media-type=\"image/png\"></></>"
    ));
    assert!(text.contains("<spine><itemref idref=\"one\"></><itemref idref=\"sub\"></></>"));
    let EpubEntry::Document { events, .. } = &archive.entries[6] else { panic!("no container") };
    assert_eq!(
        show(events),
        "<?1.0?><container xmlns:=urn:oasis:names:tc:opendocument:xmlns:container version=\"1.0\">\
         <rootfiles><rootfile full-path=\"book.opf\" media-type=\"application/oebps-package+xml\"></></></>"
    );
    let EpubEntry::Document { events, .. } = &archive.entries[3] else { panic!("no nav") };
    let text = show(events);
    assert!(text.starts_with(
        "<?1.0?><html xmlns:=http://www.w3.org/1999/xhtml xmlns:epub=http://www.idpf.org/2007/ops>\
         <head><title>Table of Contents</></><body><nav epub:type=\"toc\"><ol>"
    ));
    assert!(text.ends_with("</></></></>"));
}

#[test]
fn archive_of_a_book_that_cannot_be_written() {
    let mut tree = sample_tree();
    tree.push(NavNode {
        heading: NavHeading::Chapter(
            "Bad".to_string(),
            BookChapter {
                src_path: "b.md".to_string(),
                dest_path: "b.md".to_string(),
                content: vec![RichText::InternalLink(Link::Footnote("f".to_string()))],
            },
        ),
        children: None,
    });
    let book = Book {
        title: "Book".to_string(),
        tree,
        extra_files: vec![],
        authors: vec![],
        id: "book".to_string(),
    };
    assert_eq!(write_epub(&book, info(), "book", "NOW"), Err(RenderError::FootnoteLink));
}

#[test]
fn writer_refusals_become_io_errors() {
    let io = IoError { kind: IoErrorKind::StorageFull, message: "disk".to_string() };
    assert_eq!(xml_to_io_error(XmlWriteError::Io(io.clone())), io);
    assert_eq!(
        xml_to_io_error(XmlWriteError::DocumentStartAlreadyEmitted),
        IoError {
            kind: IoErrorKind::InvalidInput,
            message: "emitter error: document start event has already been emitted".to_string()
        }
    );
    assert_eq!(
        xml_to_io_error(XmlWriteError::LastElementNameNotAvailable).message,
        "emitter error: last element name is not available"
    );
    assert_eq!(
        xml_to_io_error(XmlWriteError::EndElementNameIsNotEqualToLastStartElementName).message,
        "emitter error: end element name is not equal to last start element name"
    );
    assert_eq!(
        xml_to_io_error(XmlWriteError::EndElementNameIsNotSpecified).message,
        "emitter error: end element name is not specified and can't be inferred"
    );
    let refusal = xml::writer::Error::DocumentStartAlreadyEmitted;
    assert_eq!(
        refusal.to_string(),
        xml_to_io_error(XmlWriteError::DocumentStartAlreadyEmitted).message
    );
}

fn is_balanced(events: &[XmlOut]) -> bool {
    let mut depth: i64 = 0;
    for event in events {
        match event {
            XmlOut::StartElement { .. } => depth += 1,
            XmlOut::EndElement | XmlOut::EndNamed(_) => depth -= 1,
            _ => {}
        }
        if depth < 0 {
            return false;
        }
    }
    depth == 0
}

#[test]
fn written_rich_text_is_well_nested() {
    let source = "# T\n\na ***b*** ~~c~~ <i x=\"y\">d</i> <br/> [l](m.md) ![i](j.png)\n\n\
                  1. x\n   - y\n2. z\n\n> q\n\n```r\nz\n```\n\n---\n";
    let nodes = parse_chapter(source, RichTextOptions::default()).unwrap();
    let mut out = Vec::new();
    for node in &nodes {
        let before = out.len();
        write_rich_node(node, &mut out).unwrap();
        assert!(is_balanced(&out[before..]));
    }
    assert!(is_balanced(&out));
    let chapter = BookChapter {
        src_path: "c.md".to_string(),
        dest_path: "c.md".to_string(),
        content: nodes,
    };
    let mut document = Vec::new();
    write_chapter(&chapter, &mut document).unwrap();
    assert!(is_balanced(&document));
    let mut list = Vec::new();
    write_nav(&sample_tree(), &mut list);
    assert!(is_balanced(&list));
}
