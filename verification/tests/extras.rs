use fiction_tools::add_copyright::{AddCopyrightPreprocessor, MarkdownError};
use fiction_tools::book::{BookItem, Chapter};
use fiction_tools::bookir::events::Construct;
use fiction_tools::bookir::grammar::ParseError;
use fiction_tools::bookir::markup::XmlElem;
use fiction_tools::bookir::nav::NavTree;
use fiction_tools::bookir::{parse_chapter, Book, ExtraItem, RichTextOptions};
use fiction_tools::collect::{extra_item, PlanError};
use fiction_tools::config::SerList;
use fiction_tools::epub::nav::{NavError, NavHeading, NavNode};
use fiction_tools::epub::xhtml::WriteMdError;
use fiction_tools::xhtml::RenderError;
use fiction_tools::GenError;

#[test]
fn unexpected_event_is_reported() {
    let mut events = AddCopyrightPreprocessor::read_events("[a](b)");
    let end_of_link = events.remove(3);
    assert_eq!(
        AddCopyrightPreprocessor::write_batches(&vec![vec![end_of_link]]),
        Err(MarkdownError::UnexpectedEvent)
    );
    assert_eq!(AddCopyrightPreprocessor::write_batches(&Vec::new()), Ok(String::new()));
}

#[test]
fn copies_are_equal() {
    let source = "# T\n\na **b** <i c=\"d\" e=\"f\">g</i> [l](m.md) ![i](j.png)\n\n- x\n- y\n\n```r\nz\n```\n";
    let nodes = parse_chapter(source, RichTextOptions::default()).unwrap();
    let copy = nodes.clone();
    assert_eq!(copy, nodes);
    let elem = XmlElem::new(
        "e".to_string(),
        &vec![("b".to_string(), "1".to_string()), ("a".to_string(), "2".to_string())],
    );
    assert_eq!(elem.clone().attributes(), elem.attributes());
    assert_eq!(elem.clone(), elem);
}

#[test]
fn trees_and_books_are_copied() {
    let items = vec![
        BookItem::PartTitle("P".to_string()),
        BookItem::Chapter(Chapter {
            name: "a".to_string(),
            content: "text".to_string(),
            sub_items: vec![BookItem::Separator],
            path: Some("a.md".to_string()),
            source_path: None,
        }),
    ];
    assert_eq!(items.clone(), items);
    let book = Book::build(
        "T".to_string(),
        &items,
        RichTextOptions::default(),
        vec![ExtraItem {
            src_path: "s".to_string(),
            dest_path: "d".to_string(),
            content_type: "t".to_string(),
        }],
        vec!["A".to_string()],
        "id".to_string(),
    )
    .unwrap();
    assert_eq!(book.clone(), book);
    assert_eq!(book.tree.clone(), book.tree);
    assert_ne!(book.tree, NavTree::new());
    let node = NavNode {
        heading: NavHeading::Heading("H".to_string()),
        children: Some(fiction_tools::epub::nav::NavTree {
            subnodes: vec![NavNode {
                heading: NavHeading::Chapter("c".to_string(), "c.xhtml".to_string()),
                children: None,
            }],
        }),
    };
    assert_eq!(node.clone(), node);
}

#[test]
fn errors_say_what_is_wrong() {
    assert_eq!(
        ParseError::Unsupported(Construct::Table).to_string(),
        "unsupported construct: table"
    );
    assert_eq!(
        ParseError::Unsupported(Construct::RichHeading).to_string(),
        "unsupported construct: rich content in heading"
    );
    assert_eq!(
        ParseError::Unsupported(Construct::FootnoteDefinition).to_string(),
        "unsupported construct: footnote definition"
    );
    assert_eq!(ParseError::MalformedMarkup.to_string(), "malformed embedded markup");
    assert_eq!(ParseError::UnexpectedEvent.to_string(), "unexpected event");
    assert_eq!(ParseError::UnexpectedEnd.to_string(), "unexpected end of the event stream");
    assert_eq!(NavError::UnmatchedGroups.to_string(), "unmatched begin/end groups");
    assert_eq!(RenderError::Table.to_string(), "a table cannot be written");
    assert_eq!(RenderError::FootnoteLink.to_string(), "a link to a footnote cannot be written");
    assert_eq!(
        RenderError::RichAltText.to_string(),
        "the alternative text of an image holds more than raw text"
    );
    assert_eq!(WriteMdError::NotAnElement.to_string(), "Not an html element");
    assert_eq!(
        WriteMdError::Unsupported(Construct::Math).to_string(),
        "unsupported construct: math"
    );
    assert_eq!(
        GenError::Plan(PlanError::ChapterOutput).to_string(),
        "one file for each chapter cannot be written"
    );
    assert_eq!(
        GenError::Parse(ParseError::Unsupported(Construct::TaskListMarker)).to_string(),
        "unsupported construct: task list marker"
    );
    assert_eq!(
        MarkdownError::UnexpectedEvent.to_string(),
        "Unexpected event while reconstructing Markdown"
    );
    for construct in [
        Construct::DefinitionList,
        Construct::DefinitionListTitle,
        Construct::DefinitionListDefinition,
        Construct::TableHead,
        Construct::TableRow,
        Construct::TableCell,
        Construct::MetadataBlock,
    ] {
        assert!(!construct.as_str().is_empty());
    }
}

#[test]
fn items_of_a_setting_are_changed_in_place() {
    let mut list = SerList::List(vec![1, 2, 3]);
    {
        let mut walk = list.iter_mut();
        while let Some(item) = walk.next() {
            *item *= 10;
        }
        assert!(walk.next().is_none());
    }
    assert_eq!(list, SerList::List(vec![10, 20, 30]));
    let mut single = SerList::SingleItem(4);
    *single.get_mut(0) += 1;
    if let Some(item) = single.iter_mut().next() {
        *item += 1;
    }
    assert_eq!(single, SerList::SingleItem(6));
    let mut empty: SerList<u8> = SerList::default();
    assert!(empty.iter_mut().next().is_none());
    assert_eq!(empty, SerList::List(Vec::new()));
    let mut one = SerList::List(vec![7]);
    {
        let mut walk = one.iter_mut();
        *walk.next().unwrap() += 1;
        assert!(walk.next().is_none());
        assert!(walk.next().is_none());
    }
    assert_eq!(one, SerList::List(vec![8]));
    *one.get_mut(0) += 1;
    assert_eq!(one, SerList::List(vec![9]));
}

#[test]
fn paths_that_lead_to_no_file() {
    for path in ["", "a/", "a/b/", "/", "..", "a/.."] {
        assert_eq!(fiction_tools::helpers::replace_extension(path, "x"), path);
        assert_eq!(fiction_tools::helpers::extension_of(path), None);
    }
    assert_eq!(fiction_tools::helpers::replace_extension("a/./b.md", "x"), "a/./b.x");
    assert_eq!(fiction_tools::helpers::replace_extension("a/.", "x"), "a/..x");
    assert_eq!(
        fiction_tools::add_copyright::split_path("/a//./b/../c/"),
        vec!["a", ".", "b", "..", "c"]
    );
}

#[test]
fn refusals_carry_the_words_of_the_writer() {
    let cases = [
        (
            fiction_tools::xhtml::XmlWriteError::DocumentStartAlreadyEmitted,
            xml::writer::Error::DocumentStartAlreadyEmitted,
        ),
        (
            fiction_tools::xhtml::XmlWriteError::LastElementNameNotAvailable,
            xml::writer::Error::LastElementNameNotAvailable,
        ),
        (
            fiction_tools::xhtml::XmlWriteError::EndElementNameIsNotEqualToLastStartElementName,
            xml::writer::Error::EndElementNameIsNotEqualToLastStartElementName,
        ),
        (
            fiction_tools::xhtml::XmlWriteError::EndElementNameIsNotSpecified,
            xml::writer::Error::EndElementNameIsNotSpecified,
        ),
    ];
    for (own, outside) in cases {
        let io = fiction_tools::xhtml::xml_to_io_error(own);
        assert_eq!(io.kind, fiction_tools::xhtml::IoErrorKind::InvalidInput);
        assert_eq!(io.message, outside.to_string());
        assert!(io.message.starts_with("emitter error: "));
    }
}

#[test]
fn extra_files() {
    let known = vec![("png".to_string(), "image/png".to_string())];
    let set = vec![("img/a.png".to_string(), "image/x-own".to_string())];
    assert_eq!(extra_item("/b/src/ch.md", "ch.md", &set, &known), None);
    assert_eq!(
        extra_item("/b/src/img/a.png", "img/a.png", &set, &known),
        Some(ExtraItem {
            src_path: "/b/src/img/a.png".to_string(),
            dest_path: "img/a.png".to_string(),
            content_type: "image/x-own".to_string(),
        })
    );
    assert_eq!(
        extra_item("/b/src/b.png", "b.png", &set, &known).unwrap().content_type,
        "image/png"
    );
    assert_eq!(
        extra_item("/b/src/md", "md", &set, &known).unwrap().content_type,
        "application/octet-stream"
    );
    assert_eq!(
        extra_item("/b/src/x.MD", "x.MD", &set, &known).unwrap().content_type,
        "application/octet-stream"
    );
}

#[test]
fn default_settings_ask_for_the_whole_book() {
    let shared = fiction_tools::config::SharedConfig::default();
    assert_eq!(shared.output, None);
    assert!(shared.always_include.is_empty());
    assert!(!shared.save_temps);
    assert_eq!(shared.output_files.full, None);
    assert!(shared.output_files.individual_files.is_empty());
    assert_eq!(shared.outputs(), vec![fiction_tools::config::OutputType::Full]);
    let epub = fiction_tools::epub::config::EpubConfig::default();
    assert_eq!(epub.shared, shared);
    assert_eq!(epub.file_ids.full, None);
    assert!(epub.file_ids.individual_files.is_empty());
    let pdf = fiction_tools::pdf::config::PdfConfig::default();
    assert_eq!(pdf.base, shared);
    assert_eq!(pdf.file_ids.full, None);
    assert!(pdf.file_ids.individual_files.is_empty());
}

#[test]
fn numerals_of_wide_numbers() {
    assert_eq!(fiction_tools::text::decimal_of(0), "0");
    assert_eq!(fiction_tools::text::decimal_of(18446744073709551616), "18446744073709551616");
    assert_eq!(
        fiction_tools::text::decimal_of(u128::MAX),
        "340282366920938463463374607431768211455"
    );
}
