use fiction_tools::book::{BookItem, Chapter};
use fiction_tools::bookir::events::Construct;
use fiction_tools::bookir::grammar::ParseError;
use fiction_tools::bookir::nav::{BookChapter, NavEntry, NavHeading, NavNode, NavTree};
use fiction_tools::bookir::{Book, ExtraItem, RichText, RichTextOptions};

fn chapter(name: &str) -> Chapter {
    Chapter {
        name: name.to_string(),
        content: format!("text of {name}"),
        sub_items: Vec::new(),
        path: Some(format!("{name}.md")),
        source_path: Some(format!("{name}.md")),
    }
}

fn chapter_node(name: &str) -> NavNode {
    NavNode {
        heading: NavHeading::Chapter(
            name.to_string(),
            BookChapter {
                src_path: format!("{name}.md"),
                dest_path: format!("{name}.md"),
                content: vec![RichText::Paragraph(vec![RichText::RawText(format!(
                    "text of {name}"
                ))])],
            },
        ),
        children: None,
    }
}

fn part(title: &str, children: Vec<NavNode>) -> NavNode {
    NavNode {
        heading: NavHeading::Heading(title.to_string()),
        children: Some(NavTree::from_vec(children)),
    }
}

fn opts() -> RichTextOptions {
    RichTextOptions::default()
}

#[test]
fn chapters_are_grouped_under_their_part() {
    let items = vec![
        BookItem::Chapter(chapter("A")),
        BookItem::PartTitle("P1".to_string()),
        BookItem::Chapter(chapter("B")),
        BookItem::Chapter(chapter("C")),
        BookItem::Separator,
        BookItem::Chapter(chapter("D")),
    ];
    let tree = NavTree::from_items(&items, opts()).unwrap();
    assert_eq!(
        tree,
        NavTree::from_vec(vec![
            chapter_node("A"),
            part("P1", vec![chapter_node("B"), chapter_node("C")]),
            chapter_node("D"),
        ])
    );
}

#[test]
fn grouping_of_entries() {
    let entries = vec![
        NavEntry::Node(chapter_node("A")),
        NavEntry::PartTitle("P1".to_string()),
        NavEntry::Node(chapter_node("B")),
        NavEntry::Node(chapter_node("C")),
        NavEntry::Separator,
        NavEntry::Node(chapter_node("D")),
    ];
    assert_eq!(
        NavTree::group(entries),
        NavTree::from_vec(vec![
            chapter_node("A"),
            part("P1", vec![chapter_node("B"), chapter_node("C")]),
            chapter_node("D"),
        ])
    );
}

#[test]
fn second_title_closes_the_first_part() {
    let entries = vec![
        NavEntry::PartTitle("One".to_string()),
        NavEntry::Node(chapter_node("A")),
        NavEntry::PartTitle("Two".to_string()),
        NavEntry::Node(chapter_node("B")),
    ];
    assert_eq!(
        NavTree::group(entries),
        NavTree::from_vec(vec![
            part("One", vec![chapter_node("A")]),
            part("Two", vec![chapter_node("B")]),
        ])
    );
}

#[test]
fn consecutive_titles_give_an_empty_part() {
    let entries = vec![
        NavEntry::PartTitle("One".to_string()),
        NavEntry::PartTitle("Two".to_string()),
        NavEntry::Node(chapter_node("A")),
    ];
    assert_eq!(
        NavTree::group(entries),
        NavTree::from_vec(vec![part("One", vec![]), part("Two", vec![chapter_node("A")])])
    );
}

#[test]
fn separator_without_part_changes_nothing() {
    let entries = vec![
        NavEntry::Node(chapter_node("A")),
        NavEntry::Separator,
        NavEntry::Node(chapter_node("B")),
        NavEntry::Separator,
    ];
    assert_eq!(
        NavTree::group(entries),
        NavTree::from_vec(vec![chapter_node("A"), chapter_node("B")])
    );
}

#[test]
fn part_open_at_the_end_is_closed() {
    let entries = vec![NavEntry::PartTitle("P".to_string())];
    assert_eq!(NavTree::group(entries), NavTree::from_vec(vec![part("P", vec![])]));
    assert_eq!(NavTree::group(Vec::new()), NavTree::new());
}

#[test]
fn part_title_keeps_its_directive() {
    let entries = vec![NavEntry::PartTitle("Part One {#p1}".to_string())];
    assert_eq!(NavTree::group(entries), NavTree::from_vec(vec![part("Part One {#p1}", vec![])]));
}

#[test]
fn draft_chapter_is_unbound_and_keeps_its_children() {
    let mut draft = chapter("Draft");
    draft.path = None;
    draft.sub_items = vec![BookItem::Chapter(chapter("Inner"))];
    let tree = NavTree::from_items(&vec![BookItem::Chapter(draft)], opts()).unwrap();
    assert_eq!(
        tree,
        NavTree::from_vec(vec![NavNode {
            heading: NavHeading::UnboundChapter("Draft".to_string()),
            children: Some(NavTree::from_vec(vec![chapter_node("Inner")])),
        }])
    );
}

#[test]
fn chapter_is_unbound_only_without_destination() {
    let content = vec![RichText::Paragraph(vec![RichText::RawText("text of X".to_string())])];
    let mut ch = chapter("X");
    ch.source_path = None;
    assert_eq!(
        BookChapter::from_chapter(&ch, opts()),
        Ok(Some(BookChapter {
            src_path: String::new(),
            dest_path: "X.md".to_string(),
            content: content.clone(),
        }))
    );
    let tree = NavTree::from_items(&vec![BookItem::Chapter(ch)], opts()).unwrap();
    match &tree.iter()[0].heading {
        NavHeading::Chapter(name, data) => {
            assert_eq!(name, "X");
            assert_eq!(data.dest_path, "X.md");
            assert_eq!(data.content, content);
        }
        other => panic!("{other:?}"),
    }
    let mut draft = chapter("X");
    draft.path = None;
    assert_eq!(BookChapter::from_chapter(&draft, opts()), Ok(None));
    let tree = NavTree::from_items(&vec![BookItem::Chapter(draft)], opts()).unwrap();
    assert_eq!(tree.iter()[0].heading, NavHeading::UnboundChapter("X".to_string()));
    assert_eq!(
        BookChapter::from_chapter(&chapter("X"), opts()),
        Ok(Some(BookChapter {
            src_path: "X.md".to_string(),
            dest_path: "X.md".to_string(),
            content: vec![RichText::Paragraph(vec![RichText::RawText("text of X".to_string())])],
        }))
    );
}

#[test]
fn nested_parts_inside_a_chapter() {
    let mut outer = chapter("Outer");
    outer.sub_items = vec![
        BookItem::PartTitle("Inner part".to_string()),
        BookItem::Chapter(chapter("I1")),
        BookItem::Separator,
        BookItem::Chapter(chapter("I2")),
    ];
    let tree = NavTree::from_items(&vec![BookItem::Chapter(outer)], opts()).unwrap();
    let mut expected = chapter_node("Outer");
    expected.children = Some(NavTree::from_vec(vec![
        part("Inner part", vec![chapter_node("I1")]),
        chapter_node("I2"),
    ]));
    assert_eq!(tree, NavTree::from_vec(vec![expected]));
}

#[test]
fn chapter_with_a_table_fails_the_whole_tree() {
    let mut bad = chapter("Bad");
    bad.content = "| a |\n|---|\n| b |\n".to_string();
    let items = vec![BookItem::Chapter(chapter("A")), BookItem::Chapter(bad)];
    assert_eq!(
        NavTree::from_items(&items, opts()),
        Err(ParseError::Unsupported(Construct::Table))
    );
    assert_eq!(
        Book::build(
            "T".to_string(),
            &items,
            opts(),
            Vec::new(),
            Vec::new(),
            "id".to_string()
        ),
        Err(ParseError::Unsupported(Construct::Table))
    );
}

#[test]
fn error_of_the_chapter_comes_before_that_of_its_children() {
    let mut outer = chapter("Outer");
    outer.content = "# A *b*\n".to_string();
    let mut inner = chapter("Inner");
    inner.content = "| a |\n|---|\n| b |\n".to_string();
    outer.sub_items = vec![BookItem::Chapter(inner)];
    let result = NavTree::from_items(&vec![BookItem::Chapter(outer)], opts());
    assert_eq!(result, Err(ParseError::Unsupported(Construct::RichHeading)));
}

#[test]
fn nested_walk_is_depth_first() {
    let mut a = chapter_node("A");
    a.children = Some(NavTree::from_vec(vec![chapter_node("A1"), chapter_node("A2")]));
    let tree = NavTree::from_vec(vec![a, part("P", vec![chapter_node("B")]), chapter_node("C")]);
    let titles: Vec<String> = tree
        .nested()
        .into_iter()
        .map(|node| match &node.heading {
            NavHeading::Chapter(title, _) => title.clone(),
            NavHeading::UnboundChapter(title) => title.clone(),
            NavHeading::Heading(title) => title.clone(),
        })
        .collect();
    assert_eq!(titles, vec!["A", "A1", "A2", "P", "B", "C"]);
    assert_eq!(tree.iter().len(), 3);
    assert!(NavTree::new().nested().is_empty());
}

#[test]
fn push_and_append() {
    let mut tree = NavTree::new();
    tree.push(chapter_node("A"));
    let mut other = NavTree::new();
    other.push(chapter_node("B"));
    other.push(chapter_node("C"));
    tree.append_tree(other);
    assert_eq!(
        tree,
        NavTree::from_vec(vec![chapter_node("A"), chapter_node("B"), chapter_node("C")])
    );
}

#[test]
fn book_keeps_its_metadata() {
    let extra = vec![ExtraItem {
        src_path: "src/a.png".to_string(),
        dest_path: "a.png".to_string(),
        content_type: "image/png".to_string(),
    }];
    let book = Book::build(
        "Title".to_string(),
        &vec![BookItem::Chapter(chapter("A"))],
        opts(),
        extra.clone(),
        vec!["Me".to_string()],
        "book".to_string(),
    )
    .unwrap();
    assert_eq!(book.title, "Title");
    assert_eq!(book.extra_files, extra);
    assert_eq!(book.authors, vec!["Me".to_string()]);
    assert_eq!(book.id, "book");
    assert_eq!(book.tree, NavTree::from_vec(vec![chapter_node("A")]));
}

#[test]
fn grouping_keeps_the_chapters_in_order() {
    let mut e = chapter_node("E");
    e.children = Some(NavTree::from_vec(vec![chapter_node("F")]));
    let entries = vec![
        NavEntry::Node(chapter_node("A")),
        NavEntry::PartTitle("One".to_string()),
        NavEntry::Node(chapter_node("B")),
        NavEntry::Node(chapter_node("C")),
        NavEntry::Separator,
        NavEntry::Separator,
        NavEntry::Node(chapter_node("D")),
        NavEntry::PartTitle("Two".to_string()),
        NavEntry::PartTitle("Three".to_string()),
        NavEntry::Node(e),
    ];
    let tree = NavTree::group(entries);
    let chapters: Vec<String> = tree
        .nested()
        .iter()
        .filter_map(|node| match &node.heading {
            NavHeading::Chapter(name, _) | NavHeading::UnboundChapter(name) => Some(name.clone()),
            NavHeading::Heading(_) => None,
        })
        .collect();
    assert_eq!(chapters, vec!["A", "B", "C", "D", "E", "F"]);
}
