use fiction_tools::epub::nav::{NavError, NavHeading, NavNode, NavTree};
use fiction_tools::xhtml::XmlOut;

fn heading(title: &str) -> NavNode {
    NavNode { heading: NavHeading::Heading(title.to_string()), children: None }
}

fn chapter(title: &str) -> NavNode {
    NavNode {
        heading: NavHeading::Chapter(title.to_string(), format!("{title}.xhtml")),
        children: None,
    }
}

fn end() -> NavNode {
    NavNode { heading: NavHeading::End, children: None }
}

fn tree(nodes: Vec<NavNode>) -> NavTree {
    let mut tree = NavTree::new();
    for node in nodes {
        tree.push(node);
    }
    tree
}

fn part(title: &str, nodes: Vec<NavNode>) -> NavNode {
    NavNode { heading: NavHeading::Heading(title.to_string()), children: Some(tree(nodes)) }
}

#[test]
fn markers_are_nested() {
    let mut flat =
        tree(vec![heading("H1"), chapter("A"), heading("H2"), chapter("B"), end(), end()]);
    assert_eq!(flat.treeify(), Ok(()));
    assert_eq!(
        flat,
        tree(vec![part("H1", vec![chapter("A"), part("H2", vec![chapter("B")])])])
    );
}

#[test]
fn missing_end_is_refused() {
    let markers = || vec![heading("H1"), chapter("A"), heading("H2"), chapter("B"), end()];
    let mut flat = tree(markers());
    assert!(!flat.is_balanced());
    assert_eq!(flat.treeify(), Err(NavError::UnmatchedGroups));
    assert_eq!(flat, tree(markers()));
}

#[test]
fn end_without_heading_is_refused() {
    let mut flat = tree(vec![chapter("A"), end()]);
    assert_eq!(flat.treeify(), Err(NavError::UnmatchedGroups));
    let mut flat = tree(vec![heading("H"), end(), end(), heading("H")]);
    assert_eq!(flat.treeify(), Err(NavError::UnmatchedGroups));
    let mut flat = tree(vec![end(), heading("H")]);
    assert_eq!(flat.treeify(), Err(NavError::UnmatchedGroups));
}

#[test]
fn chapters_alone_stay_flat() {
    let mut flat = tree(vec![chapter("A"), chapter("B")]);
    assert!(flat.is_balanced());
    assert_eq!(flat.treeify(), Ok(()));
    assert_eq!(flat, tree(vec![chapter("A"), chapter("B")]));
    let mut empty = NavTree::new();
    assert_eq!(empty.treeify(), Ok(()));
    assert_eq!(empty, NavTree::new());
}

#[test]
fn empty_part_and_siblings() {
    let mut flat = tree(vec![heading("H1"), end(), heading("H2"), chapter("A"), end(), chapter("B")]);
    assert_eq!(flat.treeify(), Ok(()));
    assert_eq!(
        flat,
        tree(vec![part("H1", vec![]), part("H2", vec![chapter("A")]), chapter("B")])
    );
}

#[test]
fn heading_drops_what_it_held() {
    let mut flat = tree(vec![part("H", vec![chapter("old")]), chapter("new"), end()]);
    assert_eq!(flat.treeify(), Ok(()));
    assert_eq!(flat, tree(vec![part("H", vec![chapter("new")])]));
}

fn names(events: &[XmlOut]) -> Vec<String> {
    events
        .iter()
        .map(|event| match event {
            XmlOut::StartElement { name, attrs, .. } => {
                let mut text = format!("<{name}");
                for (key, value) in attrs {
                    text.push_str(&format!(" {key}={value}"));
                }
                text.push('>');
                text
            }
            XmlOut::EndElement => "</>".to_string(),
            XmlOut::Characters(text) => text.clone(),
            other => format!("{other:?}"),
        })
        .collect()
}

#[test]
fn ordered_list_of_a_tree() {
    let mut flat = tree(vec![heading("H"), chapter("A"), chapter("B"), end(), chapter("C")]);
    flat.treeify().unwrap();
    let mut out = Vec::new();
    flat.write_ol(&mut out);
    assert_eq!(
        names(&out),
        vec![
            "<ol>", "<li>", "<span>", "H", "</>", "<ol>", "<li>", "<a href=A.xhtml>", "A", "</>",
            "</>", "<li>", "<a href=B.xhtml>", "B", "</>", "</>", "</>", "</>", "<li>",
            "<a href=C.xhtml>", "C", "</>", "</>", "</>"
        ]
    );
}

#[test]
fn ordered_list_needs_two_nodes() {
    let mut out = Vec::new();
    tree(vec![chapter("A")]).write_ol(&mut out);
    assert!(out.is_empty());
    tree(vec![chapter("A"), end()]).write_ol(&mut out);
    assert_eq!(names(&out), vec!["<ol>", "<li>", "<a href=A.xhtml>", "A", "</>", "</>", "</>"]);
}

fn shape(nodes: &[NavNode]) -> String {
    nodes
        .iter()
        .map(|node| match (&node.heading, &node.children) {
            (NavHeading::Heading(title), Some(children)) => {
                format!("{title}[{}]", shape(&children.subnodes))
            }
            (NavHeading::Heading(title), None) => format!("{title}?"),
            (NavHeading::Chapter(title, _), _) => title.clone(),
            (NavHeading::End, _) => "!".to_string(),
        })
        .collect::<Vec<_>>()
        .join(",")
}

fn book_node(title: &str) -> fiction_tools::bookir::nav::NavNode {
    fiction_tools::bookir::nav::NavNode {
        heading: fiction_tools::bookir::nav::NavHeading::UnboundChapter(title.to_string()),
        children: None,
    }
}

fn book_shape(nodes: &[fiction_tools::bookir::nav::NavNode]) -> String {
    nodes
        .iter()
        .map(|node| match (&node.heading, &node.children) {
            (fiction_tools::bookir::nav::NavHeading::Heading(title), Some(children)) => {
                format!("{title}[{}]", book_shape(children.iter()))
            }
            (fiction_tools::bookir::nav::NavHeading::Heading(title), None) => format!("{title}?"),
            (fiction_tools::bookir::nav::NavHeading::UnboundChapter(title), _) => title.clone(),
            (fiction_tools::bookir::nav::NavHeading::Chapter(title, _), _) => title.clone(),
        })
        .collect::<Vec<_>>()
        .join(",")
}

#[test]
fn both_ways_give_the_same_nesting() {
    let entries = vec![
        fiction_tools::bookir::nav::NavEntry::Node(book_node("A")),
        fiction_tools::bookir::nav::NavEntry::PartTitle("One".to_string()),
        fiction_tools::bookir::nav::NavEntry::Node(book_node("B")),
        fiction_tools::bookir::nav::NavEntry::Node(book_node("C")),
        fiction_tools::bookir::nav::NavEntry::PartTitle("Two".to_string()),
        fiction_tools::bookir::nav::NavEntry::Separator,
        fiction_tools::bookir::nav::NavEntry::Separator,
        fiction_tools::bookir::nav::NavEntry::Node(book_node("D")),
        fiction_tools::bookir::nav::NavEntry::PartTitle("Three".to_string()),
        fiction_tools::bookir::nav::NavEntry::Node(book_node("E")),
    ];
    let grouped = fiction_tools::bookir::nav::NavTree::group(entries);
    let mut stream = tree(vec![
        chapter("A"),
        heading("One"),
        chapter("B"),
        chapter("C"),
        end(),
        heading("Two"),
        end(),
        chapter("D"),
        heading("Three"),
        chapter("E"),
        end(),
    ]);
    stream.treeify().unwrap();
    assert_eq!(shape(&stream.subnodes), "A,One[B,C],Two[],D,Three[E]");
    assert_eq!(book_shape(grouped.iter()), shape(&stream.subnodes));
}
