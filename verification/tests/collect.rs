use fiction_tools::add_copyright::{
    split_path, AddCopyrightPreprocessor, AddCopyrightPreprocessorConfig, FileSet,
};
use fiction_tools::book::{BookItem, Chapter};
use fiction_tools::bookir::events::Construct;
use fiction_tools::bookir::grammar::ParseError;
use fiction_tools::bookir::nav::{NavHeading, NavNode};
use fiction_tools::bookir::{ExtraItem, RichTextOptions};
use fiction_tools::collect::{
    build_tree, collect_parts, find_part, iter_items, plan_outputs, shown_title_of, PlanError,
};
use fiction_tools::config::{
    find_entry, Config, FileIds, OutputFile, OutputFileSpec, OutputType, SerList, SharedConfig,
};
use fiction_tools::epub::config::{EpubConfig, PackageId};
use fiction_tools::helpers::{extension_of, media_type_from_file, replace_extension};
use fiction_tools::pdf::data::Name;
use fiction_tools::{gen_collected_output, GenError, Output};
use std::path::{Path, PathBuf};

fn chapter(name: &str) -> BookItem {
    BookItem::Chapter(Chapter {
        name: name.to_string(),
        content: format!("text of {name}"),
        sub_items: Vec::new(),
        path: Some(format!("{name}.md")),
        source_path: Some(format!("{name}.md")),
    })
}

fn title(text: &str) -> BookItem {
    BookItem::PartTitle(text.to_string())
}

fn names(items: &[&BookItem]) -> Vec<String> {
    items
        .iter()
        .map(|item| match item {
            BookItem::Chapter(ch) => ch.name.clone(),
            BookItem::PartTitle(t) => format!("[{t}]"),
            BookItem::Separator => "---".to_string(),
        })
        .collect()
}

fn node_names(nodes: &[NavNode]) -> Vec<String> {
    nodes
        .iter()
        .map(|node| match &node.heading {
            NavHeading::Chapter(t, _) => t.clone(),
            NavHeading::UnboundChapter(t) => format!("({t})"),
            NavHeading::Heading(t) => format!(
                "[{t}: {}]",
                node_names(node.children.as_ref().map(|c| c.iter().as_slice()).unwrap_or(&[]))
                    .join(",")
            ),
        })
        .collect()
}

fn sections() -> Vec<BookItem> {
    vec![
        chapter("front"),
        chapter("intro"),
        title("Part One {#p1}"),
        chapter("a"),
        chapter("b"),
        BookItem::Separator,
        chapter("loose"),
        title(" Part Two "),
        chapter("c"),
        chapter("back"),
    ]
}

fn config(output: Option<SerList<OutputType>>) -> SharedConfig {
    SharedConfig {
        output,
        always_include: vec!["front.md".to_string(), "back.md".to_string()],
        save_temps: false,
        output_files: OutputFileSpec::default(),
    }
}

#[test]
fn parts_are_collected() {
    let sections = sections();
    let always = vec!["front.md".to_string(), "back.md".to_string()];
    let lists = collect_parts(&sections, &always);
    assert_eq!(names(&lists.head), vec!["front"]);
    assert_eq!(names(&lists.tail), vec!["back"]);
    assert_eq!(lists.parts.len(), 2);
    assert_eq!(lists.parts[0].id, "p1");
    assert_eq!(names(&lists.parts[0].chapters), vec!["a", "b"]);
    assert_eq!(lists.parts[1].id, "-part-two-");
    assert_eq!(names(&lists.parts[1].chapters), vec!["c", "back"]);
    assert_eq!(names(find_part(&lists.parts, "p1").unwrap()), vec!["a", "b"]);
    assert!(find_part(&lists.parts, "p2").is_none());
}

#[test]
fn parent_step_is_ignored_for_always_included_chapters() {
    let mut sections = vec![chapter("x")];
    if let BookItem::Chapter(ch) = &mut sections[0] {
        ch.path = Some("../shared.md".to_string());
    }
    let lists = collect_parts(&sections, &vec!["shared.md".to_string()]);
    assert_eq!(names(&lists.head), vec!["x"]);
    let lists = collect_parts(&sections, &vec!["../shared.md".to_string()]);
    assert!(lists.head.is_empty());
}

#[test]
fn part_with_a_repeated_id_takes_the_later_chapters() {
    let sections =
        vec![title("P"), chapter("a"), title("Q"), chapter("b"), title("P"), chapter("c")];
    let lists = collect_parts(&sections, &Vec::new());
    assert_eq!(lists.parts.len(), 2);
    assert_eq!(lists.parts[0].id, "p");
    assert_eq!(names(&lists.parts[0].chapters), vec!["c"]);
    assert_eq!(names(&lists.parts[1].chapters), vec!["b"]);
}

#[test]
fn full_output_keeps_the_top_level() {
    let sections = sections();
    let plans = plan_outputs(&sections, &config(None), None).unwrap();
    assert_eq!(plans.len(), 1);
    assert_eq!(plans[0].output, Output::Full);
    assert_eq!(plans[0].groups.len(), 1);
    assert_eq!(
        names(&plans[0].groups[0]),
        vec![
            "front",
            "intro",
            "[Part One {#p1}]",
            "a",
            "b",
            "---",
            "loose",
            "[ Part Two ]",
            "c",
            "back"
        ]
    );
}

#[test]
fn separator_ends_the_part_in_the_whole_book() {
    let sections = vec![
        chapter("A"),
        title("P1"),
        chapter("B"),
        chapter("C"),
        BookItem::Separator,
        chapter("D"),
    ];
    let outputs = gen_collected_output(
        &sections,
        &SharedConfig::default(),
        None,
        &Vec::new(),
        &Vec::new(),
        RichTextOptions::default(),
    )
    .unwrap();
    assert_eq!(outputs.len(), 1);
    assert_eq!(outputs[0].output, Output::Full);
    assert_eq!(node_names(outputs[0].book.tree.iter()), vec!["A", "[P1: B,C]", "D"]);
    let tree = fiction_tools::bookir::nav::NavTree::from_items(&sections, RichTextOptions::default())
        .unwrap();
    assert_eq!(outputs[0].book.tree, tree);
}

#[test]
fn items_are_walked_depth_first() {
    let mut sections = vec![chapter("a"), BookItem::Separator, chapter("b")];
    if let BookItem::Chapter(ch) = &mut sections[0] {
        ch.sub_items = vec![chapter("a1"), title("T")];
    }
    assert_eq!(names(&iter_items(&sections)), vec!["a", "a1", "[T]", "---", "b"]);
}

#[test]
fn shown_titles() {
    assert_eq!(shown_title_of("Part One {#p1}"), "Part One");
    assert_eq!(shown_title_of("  Two  "), "Two");
    assert_eq!(shown_title_of("{#x}"), "");
}

#[test]
fn default_output_is_the_whole_book() {
    let sections = sections();
    let config = config(None);
    assert_eq!(config.outputs(), vec![OutputType::Full]);
    let plans = plan_outputs(&sections, &config, Some("My Book {#mb}")).unwrap();
    assert_eq!(plans.len(), 1);
    assert_eq!(plans[0].output, Output::Full);
    assert_eq!(plans[0].path, "mb");
    assert_eq!(plans[0].id, "mb");
    assert_eq!(plans[0].title, "My Book {#mb}");
    assert_eq!(plans[0].groups.len(), 1);
    let plans = plan_outputs(&sections, &config, None).unwrap();
    assert_eq!(plans[0].path, "book");
    assert_eq!(plans[0].id, "book");
    assert_eq!(plans[0].title, "Placeholder Title");
}

#[test]
fn part_outputs() {
    let sections = sections();
    let mut config = config(Some(SerList::SingleItem(OutputType::Part)));
    config.output_files.individual_files =
        vec![("p1".to_string(), OutputFile::Path("first".to_string()))];
    let plans = plan_outputs(&sections, &config, Some("B")).unwrap();
    assert_eq!(plans.len(), 2);
    assert_eq!(plans[0].output, Output::Part("p1".to_string()));
    assert_eq!(plans[0].path, "first");
    assert_eq!(plans[0].title, "Part One");
    assert_eq!(plans[0].id, "p1");
    let groups: Vec<Vec<String>> = plans[0].groups.iter().map(|g| names(g)).collect();
    assert_eq!(groups, vec![vec!["front"], vec!["a", "b"], vec!["back"]]);
    assert_eq!(plans[1].path, "-part-two-");
    assert_eq!(plans[1].title, "Part Two");
    let tree = build_tree(&plans[1], RichTextOptions::default()).unwrap();
    assert_eq!(node_names(tree.iter()), vec!["front", "c", "back", "back"]);
}

#[test]
fn switched_off_files() {
    let sections = sections();
    let mut config = config(Some(SerList::List(vec![
        OutputType::Part,
        OutputType::Full,
        OutputType::Part,
    ])));
    config.output_files.individual_files = vec![
        ("p1".to_string(), OutputFile::Enabled(false)),
        ("-part-two-".to_string(), OutputFile::Enabled(true)),
    ];
    let plans = plan_outputs(&sections, &config, None).unwrap();
    let outputs: Vec<Output> = plans.iter().map(|p| p.output.clone()).collect();
    assert_eq!(
        outputs,
        vec![
            Output::Part("-part-two-".to_string()),
            Output::Full,
            Output::Part("-part-two-".to_string())
        ]
    );
    config.output_files.full = Some(OutputFile::Enabled(false));
    let plans = plan_outputs(&sections, &config, None).unwrap();
    let outputs: Vec<Output> = plans.iter().map(|p| p.output.clone()).collect();
    assert_eq!(outputs, vec![Output::Part("-part-two-".to_string())]);
    config.output_files.full = Some(OutputFile::Path("whole".to_string()));
    let plans = plan_outputs(&sections, &config, None).unwrap();
    assert_eq!(plans[1].path, "whole");
}

#[test]
fn chapter_output_is_refused() {
    let sections = sections();
    let mut config = config(Some(SerList::List(vec![OutputType::Full, OutputType::Chapter])));
    config.output_files.full = Some(OutputFile::Enabled(false));
    assert_eq!(plan_outputs(&sections, &config, None).err(), Some(PlanError::ChapterOutput));
    assert_eq!(
        gen_collected_output(
            &sections,
            &config,
            None,
            &Vec::new(),
            &Vec::new(),
            RichTextOptions::default()
        ),
        Err(GenError::Plan(PlanError::ChapterOutput))
    );
}

#[test]
fn nested_part_title_without_a_list_is_refused() {
    let mut sections = vec![chapter("a")];
    if let BookItem::Chapter(ch) = &mut sections[0] {
        ch.sub_items = vec![title("Inner")];
    }
    let config = config(Some(SerList::SingleItem(OutputType::Part)));
    assert_eq!(plan_outputs(&sections, &config, None).err(), Some(PlanError::UnknownPart));
}

#[test]
fn outputs_are_generated() {
    let sections = sections();
    let shared =
        config(Some(SerList::List(vec![OutputType::Full, OutputType::Part])));
    let config = EpubConfig { shared, file_ids: FileIds::default() };
    let extra = vec![ExtraItem {
        src_path: "s/a.png".to_string(),
        dest_path: "a.png".to_string(),
        content_type: "image/png".to_string(),
    }];
    let authors = vec!["Me".to_string()];
    let outputs = gen_collected_output(
        &sections,
        &config,
        Some("The Book"),
        &authors,
        &extra,
        RichTextOptions::default(),
    )
    .unwrap();
    assert_eq!(outputs.len(), 3);
    assert_eq!(outputs[0].path, "the-book");
    assert_eq!(outputs[0].output, Output::Full);
    assert_eq!(outputs[0].book.title, "The Book");
    assert_eq!(outputs[0].book.id, "the-book");
    assert_eq!(outputs[0].book.authors, authors);
    assert_eq!(outputs[0].book.extra_files, extra);
    assert_eq!(
        node_names(outputs[0].book.tree.iter()),
        vec!["front", "intro", "[Part One {#p1}: a,b]", "loose", "[ Part Two : c,back]"]
    );
    assert_eq!(outputs[1].path, "p1");
    assert_eq!(outputs[1].book.title, "Part One");
    assert_eq!(node_names(outputs[1].book.tree.iter()), vec!["front", "a", "b", "back"]);
    assert_eq!(outputs[2].output, Output::Part("-part-two-".to_string()));
}

#[test]
fn chapter_that_cannot_be_read_fails_the_outputs() {
    let mut sections = sections();
    if let BookItem::Chapter(ch) = &mut sections[3] {
        ch.content = "| a |\n|---|\n| b |\n".to_string();
    }
    assert_eq!(
        gen_collected_output(
            &sections,
            &config(None),
            None,
            &Vec::new(),
            &Vec::new(),
            RichTextOptions::default()
        ),
        Err(GenError::Parse(ParseError::Unsupported(Construct::Table)))
    );
}

#[test]
fn settings_lists() {
    let single = SerList::SingleItem(3);
    assert_eq!(single.len(), 1);
    assert_eq!(single.iter(), vec![&3]);
    assert_eq!(*single.get(0), 3);
    assert_eq!(single.into_iter(), vec![3]);
    let list = SerList::List(vec![1, 2]);
    assert_eq!(list.iter(), vec![&1, &2]);
    assert_eq!(list.into_iter(), vec![1, 2]);
    assert_eq!(SerList::<u8>::default().len(), 0);
    let config = config(Some(SerList::List(vec![OutputType::Part, OutputType::Full])));
    assert_eq!(config.outputs(), vec![OutputType::Part, OutputType::Full]);
    assert!(config.always_includes("front.md"));
    assert!(!config.always_includes("front"));
    assert_eq!(config.shared(), &config);
}

#[test]
fn lookups_take_the_first_entry() {
    let pairs = vec![("a".to_string(), 1), ("b".to_string(), 2), ("a".to_string(), 3)];
    assert_eq!(find_entry(&pairs, "a"), Some(&1));
    assert_eq!(find_entry(&pairs, "b"), Some(&2));
    assert_eq!(find_entry(&pairs, "c"), None);
    let ids = FileIds {
        full: None,
        individual_files: vec![("p".to_string(), PackageId::Oid { oid: "1".to_string() })],
    };
    assert_eq!(ids.individual("p"), Some(&PackageId::Oid { oid: "1".to_string() }));
    assert_eq!(ids.individual("q"), None);
    let files = OutputFileSpec {
        full: None,
        individual_files: vec![("p".to_string(), OutputFile::Enabled(true))],
    };
    assert_eq!(files.individual("p"), Some(&OutputFile::Enabled(true)));
    assert_eq!(EpubConfig::default().shared().outputs(), vec![OutputType::Full]);
}

#[test]
fn file_sets() {
    let all = FileSet { included: None, excluded: vec!["x.md".to_string()] };
    assert!(all.contains_file("a.md"));
    assert!(!all.contains_file("x.md"));
    let some = FileSet {
        included: Some(vec!["a.md".to_string(), "x.md".to_string()]),
        excluded: vec!["x.md".to_string()],
    };
    assert!(some.contains_file("a.md"));
    assert!(!some.contains_file("b.md"));
    assert!(!some.contains_file("x.md"));
    let none = FileSet { included: Some(vec![]), excluded: vec![] };
    assert!(!none.contains_file("a.md"));
}

#[test]
fn chapters_that_take_the_stub() {
    let config = AddCopyrightPreprocessorConfig {
        command: String::new(),
        after: vec![],
        renderers: vec![],
        copyright_stub: None,
        base_set: FileSet { included: None, excluded: vec!["no.md".to_string()] },
        renderer_sets: vec![(
            "epub".to_string(),
            FileSet { included: Some(vec!["a.md".to_string()]), excluded: vec![] },
        )],
    };
    assert!(config.is_included("html", "a.md"));
    assert!(config.is_included("html", "b.md"));
    assert!(!config.is_included("html", "no.md"));
    assert!(config.is_included("epub", "a.md"));
    assert!(!config.is_included("epub", "b.md"));
    assert!(!config.is_included("epub", "no.md"));
    let pre = AddCopyrightPreprocessor {};
    assert_eq!(pre.name(), "add-copyright");
    assert!(pre.supports_renderer("anything"));
}

#[test]
fn marker_is_found() {
    assert_eq!(
        AddCopyrightPreprocessor::split_marker("before !{#copyright} after"),
        Some(("before ".to_string(), " after".to_string()))
    );
    assert_eq!(
        AddCopyrightPreprocessor::split_marker("!{#copyright}"),
        Some((String::new(), String::new()))
    );
    assert_eq!(
        AddCopyrightPreprocessor::split_marker("a!{#copyright}b!{#copyright}c"),
        Some(("a".to_string(), "b!{#copyright}c".to_string()))
    );
    assert_eq!(AddCopyrightPreprocessor::split_marker("!{#copyright"), None);
    assert_eq!(AddCopyrightPreprocessor::split_marker(""), None);
}

#[test]
fn destinations_are_rebased() {
    assert!(AddCopyrightPreprocessor::needs_rebase("img/a.png"));
    assert!(!AddCopyrightPreprocessor::needs_rebase(""));
    assert!(!AddCopyrightPreprocessor::needs_rebase("/abs/a.png"));
    assert!(!AddCopyrightPreprocessor::needs_rebase("https://e.com/a.png"));
    assert_eq!(AddCopyrightPreprocessor::rebase_destination("src", "ch.md", "LICENSE.md"), "LICENSE.md");
    assert_eq!(
        AddCopyrightPreprocessor::rebase_destination("src", "part/ch.md", "LICENSE.md"),
        "../LICENSE.md"
    );
    assert_eq!(
        AddCopyrightPreprocessor::rebase_destination("book/src", "a/b/ch.md", "img/l.png"),
        "../../img/l.png"
    );
    assert_eq!(
        AddCopyrightPreprocessor::rewrite_destination("src", "part/ch.md", "http://e.com"),
        "http://e.com"
    );
    assert_eq!(
        AddCopyrightPreprocessor::rewrite_destination("src", "part/ch.md", "x.md"),
        "../x.md"
    );
    assert_eq!(split_path("/a//b/c/"), vec!["a", "b", "c"]);
    assert_eq!(split_path(""), Vec::<String>::new());
    assert_eq!(split_path("///"), Vec::<String>::new());
}

#[test]
fn rebasing_agrees_with_paths() {
    for (root, path) in [("src", "ch.md"), ("src", "p/ch.md"), ("b/src", "p/q/ch.md")] {
        let root_path = Path::new(root);
        let mut file = root_path.to_path_buf();
        file.push(path);
        let (dots, base) = file
            .parent()
            .unwrap()
            .ancestors()
            .enumerate()
            .find(|(_, p)| root_path.starts_with(p))
            .unwrap();
        let mut real = PathBuf::new();
        for _ in 0..dots {
            real.push("..");
        }
        real.push(root_path.strip_prefix(base).unwrap());
        real.push("dest.md");
        assert_eq!(
            AddCopyrightPreprocessor::rebase_destination(root, path, "dest.md"),
            real.to_str().unwrap()
        );
    }
}

#[test]
fn extensions() {
    assert_eq!(replace_extension("a/b.md", "xhtml"), "a/b.xhtml");
    assert_eq!(replace_extension("a/b", "xhtml"), "a/b.xhtml");
    assert_eq!(replace_extension("a.b/c.d.e", "x"), "a.b/c.d.x");
    assert_eq!(replace_extension(".hidden", "x"), ".hidden.x");
    assert_eq!(replace_extension("a/", "x"), "a/");
    assert_eq!(replace_extension("..", "x"), "..");
    assert_eq!(replace_extension("", "x"), "");
    assert_eq!(extension_of("a/b.md"), Some("md".to_string()));
    assert_eq!(extension_of("a.b/c"), None);
    assert_eq!(extension_of(".hidden"), None);
    assert_eq!(extension_of("a."), Some(String::new()));
    assert_eq!(extension_of("a.tar.gz"), Some("gz".to_string()));
    assert_eq!(extension_of(".."), None);
    for path in ["a/b.md", "a/b", "a.b/c.d.e", ".hidden", "x.tar.gz"] {
        let std_path = Path::new(path);
        assert_eq!(replace_extension(path, "xhtml"), std_path.with_extension("xhtml").to_str().unwrap());
        assert_eq!(
            extension_of(path),
            std_path.extension().map(|e| e.to_str().unwrap().to_string())
        );
    }
}

#[test]
fn media_types() {
    let known = vec![
        ("png".to_string(), "image/png".to_string()),
        ("css".to_string(), "text/css".to_string()),
    ];
    assert_eq!(media_type_from_file("img/a.png", &known), "image/png");
    assert_eq!(media_type_from_file("style.css", &known), "text/css");
    assert_eq!(media_type_from_file("a.PNG", &known), "application/octet-stream");
    assert_eq!(media_type_from_file("noext", &known), "application/octet-stream");
    assert_eq!(media_type_from_file("a.png", &Vec::new()), "application/octet-stream");
}

#[test]
fn pdf_names() {
    assert_eq!(Name::new().to_string(), "/");
    assert_eq!(Name::default(), Name::new());
    assert_eq!(Name::from_str("Size").to_string(), "/Size");
    assert_eq!(Name::from_string("A B".to_string()).to_string(), "/A#20B");
    assert_eq!(Name::from_str("a/b#c(d)").to_string(), "/a#2Fb#23c#28d#29");
    assert_eq!(Name::from_str("x\n\r\t\0\x0c").to_string(), "/x#0A#0D#09#00#0C");
    assert_eq!(Name::from_str("<>[]{}%").to_string(), "/#3C#3E#5B#5D#7B#7D#25");
    assert_eq!(Name::from_str("\u{e9}").to_string(), "/\u{e9}");
    assert_eq!(Name::from_str("Size").0, "Size");
}
