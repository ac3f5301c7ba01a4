use fiction_tools::add_copyright::{
    AddCopyrightPreprocessor, AddCopyrightPreprocessorConfig, FileSet, MarkdownError, STUB_OPTIONS,
};
use fiction_tools::book::Chapter;

fn config() -> AddCopyrightPreprocessorConfig {
    AddCopyrightPreprocessorConfig {
        command: String::new(),
        after: vec![],
        renderers: vec![],
        copyright_stub: None,
        base_set: FileSet { included: None, excluded: vec!["skip.md".to_string()] },
        renderer_sets: vec![],
    }
}

fn chapter(path: Option<&str>, content: &str) -> Chapter {
    Chapter {
        name: "C".to_string(),
        content: content.to_string(),
        sub_items: vec![],
        path: path.map(str::to_string),
        source_path: path.map(str::to_string),
    }
}

const STUB: &str = "Copyright by [me](about.md), see ![logo](img/logo.png) and [site](https://e.com).";

#[test]
fn stub_replaces_the_marker() {
    let mut ch = chapter(Some("ch.md"), "# Title\n\nBefore !{#copyright} after.\n");
    AddCopyrightPreprocessor::update_chapter(&mut ch, &config(), "html", "src", STUB).unwrap();
    assert_eq!(
        ch.content,
        "# Title\n\nBefore Copyright by [me](about.md), see ![logo](img/logo.png) and [site](https://e.com).\n\n after."
    );
}

#[test]
fn destinations_follow_the_chapter() {
    let mut ch = chapter(Some("part/ch.md"), "!{#copyright}");
    AddCopyrightPreprocessor::update_chapter(&mut ch, &config(), "html", "src", STUB).unwrap();
    assert_eq!(
        ch.content,
        "Copyright by [me](../about.md), see ![logo](../img/logo.png) and [site](https://e.com).\n\n"
    );
}

#[test]
fn chapter_outside_the_set_loses_the_marker() {
    let mut ch = chapter(Some("skip.md"), "a !{#copyright} b");
    AddCopyrightPreprocessor::update_chapter(&mut ch, &config(), "html", "src", STUB).unwrap();
    assert_eq!(ch.content, "a  b");
}

#[test]
fn chapter_without_marker_is_written_back() {
    let mut ch = chapter(Some("ch.md"), "Some *text* here.\n\n- a\n- b\n");
    AddCopyrightPreprocessor::update_chapter(&mut ch, &config(), "html", "src", STUB).unwrap();
    assert_eq!(ch.content, "Some *text* here.\n\n* a\n* b");
}

#[test]
fn draft_chapter_is_left_alone() {
    let mut ch = chapter(None, "a !{#copyright} b  \n\n");
    AddCopyrightPreprocessor::update_chapter(&mut ch, &config(), "html", "src", STUB).unwrap();
    assert_eq!(ch.content, "a !{#copyright} b  \n\n");
}

#[test]
fn events_are_read() {
    assert_eq!(STUB_OPTIONS, 0x5e);
    let events = AddCopyrightPreprocessor::read_events("a [b](c.md) ![d](e.png)");
    let texts: Vec<Option<String>> = events.iter().map(|e| e.text().clone()).collect();
    let dests: Vec<Option<String>> = events.iter().map(|e| e.destination().clone()).collect();
    assert_eq!(
        texts,
        vec![
            None,
            Some("a ".to_string()),
            None,
            Some("b".to_string()),
            None,
            Some(" ".to_string()),
            None,
            Some("d".to_string()),
            None,
            None
        ]
    );
    assert_eq!(
        dests,
        vec![
            None,
            None,
            Some("c.md".to_string()),
            None,
            None,
            None,
            Some("e.png".to_string()),
            None,
            None,
            None
        ]
    );
    let tasks = AddCopyrightPreprocessor::read_events("- [x] t");
    assert_eq!(tasks.len(), 6);
}

#[test]
fn stub_for_a_chapter() {
    let stub = AddCopyrightPreprocessor::read_events("[s](t.md) [u](/v.md) [w](x://y) text");
    let copy = AddCopyrightPreprocessor::stub_for(&stub, "src", "a/b/c.md");
    assert_eq!(copy.len(), stub.len());
    let dests: Vec<String> = copy.iter().filter_map(|e| e.destination().clone()).collect();
    assert_eq!(dests, vec!["../../t.md", "/v.md", "x://y"]);
    for (new, old) in copy.iter().zip(&stub) {
        assert_eq!(new.text(), old.text());
        if old.destination().as_deref() != Some("t.md") {
            assert_eq!(new, old);
        } else {
            assert_ne!(new, old);
        }
    }
    let written = AddCopyrightPreprocessor::write_batches(&vec![copy]).unwrap();
    assert_eq!(written, "[s](../../t.md) [u](/v.md) [w](x://y) text");
}

#[test]
fn batches_of_a_splice() {
    let events = AddCopyrightPreprocessor::read_events("x !{#copyright} y");
    let stub = AddCopyrightPreprocessor::read_events("[s](t.md)");
    let batches = AddCopyrightPreprocessor::splice_stub(events, &stub, true, "src", "a/b.md");
    let shape: Vec<usize> = batches.iter().map(Vec::len).collect();
    assert_eq!(shape, vec![1, 1, stub.len(), 1, 1]);
    assert_eq!(batches[1][0].text(), &Some("x ".to_string()));
    assert_eq!(batches[3][0].text(), &Some(" y".to_string()));
    assert_eq!(batches[2][1].destination(), &Some("../t.md".to_string()));
    assert_eq!(batches[2][0], stub[0]);
    let events = AddCopyrightPreprocessor::read_events("x !{#copyright} y");
    let batches = AddCopyrightPreprocessor::splice_stub(events, &stub, false, "src", "a/b.md");
    let shape: Vec<usize> = batches.iter().map(Vec::len).collect();
    assert_eq!(shape, vec![1, 1, 1, 1]);
}

#[test]
fn chapter_takes_what_was_written() {
    let mut ch = chapter(Some("ch.md"), "old");
    let r = AddCopyrightPreprocessor::take_written(&mut ch, Ok("new".to_string()));
    assert_eq!(r, Ok(()));
    assert_eq!(ch, Chapter { content: "new".to_string(), ..chapter(Some("ch.md"), "old") });
    for e in [MarkdownError::FormatFailed, MarkdownError::UnexpectedEvent] {
        let r = AddCopyrightPreprocessor::take_written(&mut ch, Err(e));
        assert_eq!(r, Err(e));
        assert_eq!(ch.content, "new");
    }
}

#[test]
fn chapter_without_events_is_emptied() {
    for content in ["", "\n", "  \n\n \n"] {
        assert!(AddCopyrightPreprocessor::read_events(content).is_empty());
        let mut ch = chapter(Some("ch.md"), content);
        let r = AddCopyrightPreprocessor::update_chapter(&mut ch, &config(), "html", "src", STUB);
        assert_eq!(r, Ok(()));
        assert_eq!(ch, chapter(Some("ch.md"), ""));
    }
}

#[test]
fn batches_of_a_chapter() {
    let stub = AddCopyrightPreprocessor::read_events("[s](t.md)");
    let taken = AddCopyrightPreprocessor::chapter_batches(
        "x !{#copyright} y",
        "a/b.md",
        &config(),
        "html",
        "src",
        "[s](t.md)",
    );
    let shape: Vec<usize> = taken.iter().map(Vec::len).collect();
    assert_eq!(shape, vec![1, 1, stub.len(), 1, 1]);
    assert_eq!(taken[1][0].text(), &Some("x ".to_string()));
    assert_eq!(taken[2][1].destination(), &Some("../t.md".to_string()));
    assert_eq!(taken[3][0].text(), &Some(" y".to_string()));
    let left = AddCopyrightPreprocessor::chapter_batches(
        "x !{#copyright} y",
        "skip.md",
        &config(),
        "html",
        "src",
        "[s](t.md)",
    );
    let shape: Vec<usize> = left.iter().map(Vec::len).collect();
    assert_eq!(shape, vec![1, 1, 1, 1]);
    assert!(AddCopyrightPreprocessor::chapter_batches("", "a.md", &config(), "html", "src", "s")
        .is_empty());
}

#[test]
fn book_of_drafts_goes_through() {
    let mut outer = chapter(None, "a !{#copyright} b");
    outer.sub_items = vec![
        fiction_tools::book::BookItem::Chapter(chapter(None, "c")),
        fiction_tools::book::BookItem::Separator,
        fiction_tools::book::BookItem::Chapter(chapter(Some("e.md"), " \n")),
    ];
    let items = vec![
        fiction_tools::book::BookItem::PartTitle("One".to_string()),
        fiction_tools::book::BookItem::Chapter(outer.clone()),
    ];
    let updated = AddCopyrightPreprocessor {}
        .run(items.clone(), &config(), "html", "src", STUB)
        .unwrap();
    let mut expected = outer;
    expected.sub_items[2] = fiction_tools::book::BookItem::Chapter(chapter(Some("e.md"), ""));
    assert_eq!(
        updated,
        vec![
            fiction_tools::book::BookItem::PartTitle("One".to_string()),
            fiction_tools::book::BookItem::Chapter(expected),
        ]
    );
    assert_eq!(
        fiction_tools::add_copyright::try_for_each_mut(Vec::new(), &config(), "html", "src", STUB),
        Ok(Vec::new())
    );
}
