//! What an EPUB package is made of.

pub mod config;
pub mod info;
pub mod modes;
pub mod nav;
pub mod package;
pub mod xhtml;

use self::info::{EpubFileInfo, EpubFileInfoView};
use self::package::{
    item_views, package_document, EpubPackage, ItemProperty, ManifestItem, ManifestItemView,
};
use crate::bookir::nav::{
    nav_views, preorder, ref_views, NavHeading, NavHeadingView, NavNode, NavNodeView, NavTree,
};
use crate::bookir::{extra_views, Book, ExtraItemView};
use crate::helpers::{id_of, name_to_id, replace_extension, with_extension};
use crate::text::{decimal, decimal_string, pair_views};
use crate::xhtml::balance::{
    balanced, depth, lemma_balanced_add, lemma_balanced_empty, lemma_balanced_wrapped, step,
};
use crate::xhtml::{
    add_attr, append_events, chapter_events, emit, emit_end, emit_start, emit_text, one_attr,
    out_views, start, wrapped, write_chapter, RenderError, XmlOut, XmlOutView, XmlVersion,
};
use vstd::prelude::*;
use vstd::string::*;

verus! {

/// The prefix under which documents name the namespace of EPUB.
pub const NS_EPUB_PREFIX: &'static str = "epub";

/// The namespace of EPUB.
pub const NS_EPUB_URI: &'static str = "http://www.idpf.org/2007/ops";

/// The ending of the file that a chapter is written to.
pub open spec fn xhtml_ext() -> Seq<char> {
    "xhtml"@
}

/// How a node is named in the table of contents: a chapter by a link to its
/// file, a part or a draft by its title alone.
pub open spec fn nav_label(heading: NavHeadingView) -> Seq<XmlOutView> {
    match heading {
        NavHeadingView::Chapter(title, chapter) => wrapped(
            "a"@,
            seq![("href"@, with_extension(chapter.destination_path, xhtml_ext()))],
            seq![XmlOutView::Characters(title)],
        ),
        NavHeadingView::Heading(title) => wrapped(
            "span"@,
            Seq::empty(),
            seq![XmlOutView::Characters(title)],
        ),
        NavHeadingView::UnboundChapter(title) => wrapped(
            "span"@,
            Seq::empty(),
            seq![XmlOutView::Characters(title)],
        ),
    }
}

/// The list item of one node: its label, then the list of its children
/// where it has any.
pub open spec fn nav_entry(node: NavNodeView) -> Seq<XmlOutView>
    decreases node, 0int,
{
    seq![start("li"@, Seq::empty())] + nav_label(node.heading) + (match node.children {
        Some(children) => nav_list(children),
        None => Seq::empty(),
    }) + seq![XmlOutView::EndElement]
}

/// The list items of the first `n` of `nodes`.
pub open spec fn nav_entries(nodes: Seq<NavNodeView>, n: int) -> Seq<XmlOutView>
    decreases nodes, n,
{
    if n <= 0 || n > nodes.len() {
        Seq::empty()
    } else {
        nav_entries(nodes, n - 1) + nav_entry(nodes[n - 1])
    }
}

/// The ordered list that shows a tree: one item for each node, with the
/// node's children as a list inside it.
pub open spec fn nav_list(nodes: Seq<NavNodeView>) -> Seq<XmlOutView>
    decreases nodes, nodes.len() + 1,
{
    wrapped("ol"@, Seq::empty(), nav_entries(nodes, nodes.len() as int))
}

proof fn lemma_nav_label_balanced(heading: NavHeadingView)
    ensures
        balanced(nav_label(heading)),
{
    let title = match heading {
        NavHeadingView::Chapter(title, _) => title,
        NavHeadingView::Heading(title) => title,
        NavHeadingView::UnboundChapter(title) => title,
    };
    let text = seq![XmlOutView::Characters(title)];
    assert(depth(text, 1) == depth(text, 0) + step(text[0]));
    assert forall|n: int| 0 <= n <= text.len() implies #[trigger] depth(text, n) >= 0 by {
        if n == 1 {
        }
    }
    match heading {
        NavHeadingView::Chapter(_, chapter) => {
            lemma_balanced_wrapped(
                "a"@,
                seq![("href"@, with_extension(chapter.destination_path, xhtml_ext()))],
                text,
            );
        },
        _ => {
            lemma_balanced_wrapped("span"@, Seq::empty(), text);
        },
    }
}

proof fn lemma_nav_entry_balanced(node: NavNodeView)
    ensures
        balanced(nav_entry(node)),
    decreases node, 0int,
{
    lemma_nav_label_balanced(node.heading);
    lemma_balanced_empty();
    let inner = match node.children {
        Some(children) => nav_list(children),
        None => Seq::empty(),
    };
    match node.children {
        Some(children) => {
            lemma_nav_list_balanced(children);
        },
        None => {},
    }
    lemma_balanced_add(nav_label(node.heading), inner);
    lemma_balanced_wrapped("li"@, Seq::empty(), nav_label(node.heading) + inner);
    assert(nav_entry(node) =~= wrapped("li"@, Seq::empty(), nav_label(node.heading) + inner));
}

proof fn lemma_nav_entries_balanced(nodes: Seq<NavNodeView>, n: int)
    ensures
        balanced(nav_entries(nodes, n)),
    decreases nodes, n,
{
    lemma_balanced_empty();
    if n <= 0 || n > nodes.len() {
    } else {
        lemma_nav_entries_balanced(nodes, n - 1);
        lemma_nav_entry_balanced(nodes[n - 1]);
        lemma_balanced_add(nav_entries(nodes, n - 1), nav_entry(nodes[n - 1]));
    }
}

/// The list that shows a tree is well nested: every element that is opened
/// is closed, and nothing is closed that is not open.
pub proof fn lemma_nav_list_balanced(nodes: Seq<NavNodeView>)
    ensures
        balanced(nav_list(nodes)),
    decreases nodes, nodes.len() + 1,
{
    lemma_nav_entries_balanced(nodes, nodes.len() as int);
    lemma_balanced_wrapped("ol"@, Seq::empty(), nav_entries(nodes, nodes.len() as int));
}

fn nav_list_of(nodes: &Vec<NavNode>) -> (out: Vec<XmlOut>)
    ensures
        out_views(out@) == nav_list(nav_views(nodes@)),
    decreases nodes,
{
    let ghost views = nav_views(nodes@);
    let mut out: Vec<XmlOut> = Vec::new();
    assert(out_views(out@) =~= Seq::<XmlOutView>::empty());
    emit_start(&mut out, "ol", Vec::new());
    assert(crate::text::pair_views(Seq::<(String, String)>::empty()) =~= Seq::<
        (Seq<char>, Seq<char>),
    >::empty());
    let ghost open = seq![start("ol"@, Seq::empty())];
    assert(out_views(out@) =~= open + nav_entries(views, 0));
    proof {
        reveal_with_fuel(nav_views, 2);
        assert(views.len() == nodes.len());
    }
    let mut i: usize = 0;
    while i < nodes.len()
        invariant
            i <= nodes.len(),
            views == nav_views(nodes@),
            views.len() == nodes.len(),
            out_views(out@) == open + nav_entries(views, i as int),
        decreases nodes.len() - i,
    {
        let node = &nodes[i];
        let ghost was = out_views(out@);
        proof {
            reveal_with_fuel(nav_views, 2);
            assert(views[i as int] == node@);
            assert(crate::text::pair_views(Seq::<(String, String)>::empty()) =~= Seq::<
                (Seq<char>, Seq<char>),
            >::empty());
        }
        emit_start(&mut out, "li", Vec::new());
        match &node.heading {
            NavHeading::Chapter(title, chapter) => {
                let path = replace_extension(chapter.dest_path.as_str(), "xhtml");
                emit_start(&mut out, "a", one_attr("href", path.as_str()));
                emit_text(&mut out, title.as_str());
                emit_end(&mut out);
            },
            NavHeading::Heading(head) => {
                emit_start(&mut out, "span", Vec::new());
                emit_text(&mut out, head.as_str());
                emit_end(&mut out);
            },
            NavHeading::UnboundChapter(title) => {
                emit_start(&mut out, "span", Vec::new());
                emit_text(&mut out, title.as_str());
                emit_end(&mut out);
            },
        }
        assert(out_views(out@) =~= was + seq![start("li"@, Seq::empty())] + nav_label(
            node@.heading,
        ));
        match &node.children {
            Some(children) => {
                let inner = nav_list_of(&children.0);
                append_events(&mut out, inner);
            },
            None => {},
        }
        emit_end(&mut out);
        assert(out_views(out@) =~= was + nav_entry(node@));
        i += 1;
    }
    emit_end(&mut out);
    assert(out_views(out@) =~= nav_list(views));
    out
}

/// Adds to `out` the ordered list that shows `tree`.
pub fn write_nav(tree: &NavTree, out: &mut Vec<XmlOut>)
    ensures
        out_views(final(out)@) == out_views(old(out)@) + nav_list(tree@),
{
    let list = nav_list_of(&tree.0);
    append_events(out, list);
}


/// One entry of the archive that an EPUB is.
#[derive(Clone, Debug, PartialEq, Eq)]
pub enum EpubEntry {
    /// A file that is stored as it is, with its text.
    Stored { path: String, text: String },
    /// A document, given by the XML events that write it.
    Document { path: String, events: Vec<XmlOut> },
    /// A file that is copied from the sources of the book.
    Copy { path: String, source: String },
}

/// An EPUB as an archive: its comment and its entries, in their order.
#[derive(Clone, Debug, PartialEq, Eq)]
pub struct EpubArchive {
    pub comment: String,
    pub entries: Vec<EpubEntry>,
}

/// An entry of an archive, as a value of the model.
pub enum EpubEntryView {
    Stored { path: Seq<char>, text: Seq<char> },
    Document { path: Seq<char>, events: Seq<XmlOutView> },
    Copy { path: Seq<char>, source: Seq<char> },
}

impl View for EpubEntry {
    type V = EpubEntryView;

    open spec fn view(&self) -> EpubEntryView {
        match self {
            EpubEntry::Stored { path, text } => EpubEntryView::Stored { path: path@, text: text@ },
            EpubEntry::Document { path, events } => EpubEntryView::Document {
                path: path@,
                events: out_views(events@),
            },
            EpubEntry::Copy { path, source } => EpubEntryView::Copy {
                path: path@,
                source: source@,
            },
        }
    }
}

/// The model of each entry of `s`, in order.
pub open spec fn entry_views(s: Seq<EpubEntry>) -> Seq<EpubEntryView> {
    Seq::new(s.len(), |i: int| s[i]@)
}

/// The document of each chapter among the first `n` of `nodes`, or the
/// first error among them.
pub open spec fn chapter_files(nodes: Seq<NavNodeView>, n: int) -> Result<
    Seq<EpubEntryView>,
    RenderError,
>
    decreases n,
{
    if n <= 0 {
        Ok(Seq::empty())
    } else {
        match chapter_files(nodes, n - 1) {
            Err(e) => Err(e),
            Ok(files) => match nodes[n - 1].heading {
                NavHeadingView::Chapter(_, chapter) => match chapter_events(chapter.content) {
                    Err(e) => Err(e),
                    Ok(events) => Ok(
                        files.push(
                            EpubEntryView::Document {
                                path: with_extension(chapter.destination_path, xhtml_ext()),
                                events,
                            },
                        ),
                    ),
                },
                _ => Ok(files),
            },
        }
    }
}

/// The manifest item of each chapter among the first `n` of `nodes`: it is
/// named by the identifier of the chapter's title and is part of the reading
/// order.
pub open spec fn chapter_items(nodes: Seq<NavNodeView>, n: int) -> Seq<ManifestItemView>
    decreases n,
{
    if n <= 0 {
        Seq::empty()
    } else {
        match nodes[n - 1].heading {
            NavHeadingView::Chapter(title, chapter) => chapter_items(nodes, n - 1).push(
                ManifestItemView {
                    id: id_of(title),
                    path: with_extension(chapter.destination_path, xhtml_ext()),
                    media_type: "application/xhtml+xml"@,
                    properties: Seq::empty(),
                    fallback: None,
                    spine: true,
                },
            ),
            _ => chapter_items(nodes, n - 1),
        }
    }
}

/// The manifest item of the table of contents.
pub open spec fn nav_item() -> ManifestItemView {
    ManifestItemView {
        id: "nav-toc"@,
        path: "nav.xhtml"@,
        media_type: "application/xhtml+xml"@,
        properties: seq![ItemProperty::Nav],
        fallback: None,
        spine: false,
    }
}

/// The manifest items of the first `n` of the extra files, which are
/// numbered from `base` on.
pub open spec fn extra_items(extra: Seq<ExtraItemView>, base: nat, n: int) -> Seq<
    ManifestItemView,
>
    decreases n,
{
    if n <= 0 {
        Seq::empty()
    } else {
        extra_items(extra, base, n - 1).push(
            ManifestItemView {
                id: "non-md-res"@ + decimal((base + n - 1) as nat),
                path: extra[n - 1].destination_path,
                media_type: extra[n - 1].content_type,
                properties: Seq::empty(),
                fallback: None,
                spine: false,
            },
        )
    }
}

/// The entries that copy the first `n` of the extra files.
pub open spec fn extra_files(extra: Seq<ExtraItemView>, n: int) -> Seq<EpubEntryView>
    decreases n,
{
    if n <= 0 {
        Seq::empty()
    } else {
        extra_files(extra, n - 1).push(
            EpubEntryView::Copy {
                path: extra[n - 1].destination_path,
                source: extra[n - 1].source_path,
            },
        )
    }
}

/// The document of the table of contents.
pub open spec fn nav_document(tree: Seq<NavNodeView>) -> Seq<XmlOutView> {
    seq![
        XmlOutView::StartDocument(XmlVersion::Version10),
        XmlOutView::StartElement {
            name: "html"@,
            attrs: Seq::empty(),
            namespaces: seq![
                (""@, "http://www.w3.org/1999/xhtml"@),
                ("epub"@, "http://www.idpf.org/2007/ops"@),
            ],
        },
        start("head"@, Seq::empty()),
        start("title"@, Seq::empty()),
        XmlOutView::Characters("Table of Contents"@),
        XmlOutView::EndElement,
        XmlOutView::EndElement,
        start("body"@, Seq::empty()),
        start("nav"@, seq![("epub:type"@, "toc"@)]),
    ] + nav_list(tree) + seq![
        XmlOutView::EndElement,
        XmlOutView::EndElement,
        XmlOutView::EndElement,
    ]
}

/// The document that tells a reading system where the package file lies.
pub open spec fn container_document(package_file: Seq<char>) -> Seq<XmlOutView> {
    seq![
        XmlOutView::StartDocument(XmlVersion::Version10),
        XmlOutView::StartElement {
            name: "container"@,
            attrs: seq![("version"@, "1.0"@)],
            namespaces: seq![(""@, "urn:oasis:names:tc:opendocument:xmlns:container"@)],
        },
        start("rootfiles"@, Seq::empty()),
        start(
            "rootfile"@,
            seq![
                ("full-path"@, package_file),
                ("media-type"@, "application/oebps-package+xml"@),
            ],
        ),
        XmlOutView::EndElement,
        XmlOutView::EndElement,
        XmlOutView::EndElement,
    ]
}

/// The manifest of a book: its chapters, the table of contents, then the
/// extra files.
pub open spec fn manifest_of(tree: Seq<NavNodeView>, extra: Seq<ExtraItemView>) -> Seq<
    ManifestItemView,
> {
    let nodes = preorder(tree);
    let chapters = chapter_items(nodes, nodes.len() as int);
    chapters.push(nav_item()) + extra_items(extra, chapters.len() + 1, extra.len() as int)
}

/// The entries of the archive of a book: the media type, one document for
/// each chapter, the table of contents, the extra files, the package
/// document and the container document.
pub open spec fn archive_entries(
    tree: Seq<NavNodeView>,
    extra: Seq<ExtraItemView>,
    info: EpubFileInfoView,
    package_id: Seq<char>,
    modified: Seq<char>,
) -> Result<Seq<EpubEntryView>, RenderError> {
    let nodes = preorder(tree);
    match chapter_files(nodes, nodes.len() as int) {
        Err(e) => Err(e),
        Ok(chapters) => Ok(
            seq![EpubEntryView::Stored { path: "mimetype"@, text: "application/epub+zip"@ }]
                + chapters + seq![
                EpubEntryView::Document { path: "nav.xhtml"@, events: nav_document(tree) },
            ] + extra_files(extra, extra.len() as int) + seq![
                EpubEntryView::Document {
                    path: package_id + ".opf"@,
                    events: seq![XmlOutView::StartDocument(XmlVersion::Version10)]
                        + package_document(info, manifest_of(tree, extra), modified),
                },
                EpubEntryView::Document {
                    path: "META-INF/container.xml"@,
                    events: container_document(package_id + ".opf"@),
                },
            ],
        ),
    }
}

/// An error among the first chapters is the error of them all.
pub proof fn lemma_chapter_files_error(nodes: Seq<NavNodeView>, first: int, n: int)
    requires
        0 < first <= n,
        chapter_files(nodes, first) is Err,
    ensures
        chapter_files(nodes, n) == chapter_files(nodes, first),
    decreases n - first,
{
    if first < n {
        lemma_chapter_files_error(nodes, first, n - 1);
    }
}

fn nav_document_of(tree: &NavTree) -> (out: Vec<XmlOut>)
    ensures
        out_views(out@) == nav_document(tree@),
{
    let mut out: Vec<XmlOut> = Vec::new();
    assert(out_views(out@) =~= Seq::<XmlOutView>::empty());
    assert(pair_views(Seq::<(String, String)>::empty()) =~= Seq::<
        (Seq<char>, Seq<char>),
    >::empty());
    let mut namespaces = one_attr("", crate::xhtml::NS_XHTML_URI);
    add_attr(&mut namespaces, NS_EPUB_PREFIX, NS_EPUB_URI);
    assert(pair_views(namespaces@) =~= seq![
        (""@, "http://www.w3.org/1999/xhtml"@),
        ("epub"@, "http://www.idpf.org/2007/ops"@),
    ]);
    emit(&mut out, XmlOut::StartDocument(XmlVersion::Version10));
    emit(
        &mut out,
        XmlOut::StartElement { name: String::from_str("html"), attrs: Vec::new(), namespaces },
    );
    emit_start(&mut out, "head", Vec::new());
    emit_start(&mut out, "title", Vec::new());
    emit_text(&mut out, "Table of Contents");
    emit_end(&mut out);
    emit_end(&mut out);
    emit_start(&mut out, "body", Vec::new());
    emit_start(&mut out, "nav", one_attr("epub:type", "toc"));
    write_nav(tree, &mut out);
    emit_end(&mut out);
    emit_end(&mut out);
    emit_end(&mut out);
    assert(out_views(out@) =~= nav_document(tree@));
    out
}

fn container_document_of(package_file: &str) -> (out: Vec<XmlOut>)
    ensures
        out_views(out@) == container_document(package_file@),
{
    let mut out: Vec<XmlOut> = Vec::new();
    assert(out_views(out@) =~= Seq::<XmlOutView>::empty());
    assert(pair_views(Seq::<(String, String)>::empty()) =~= Seq::<
        (Seq<char>, Seq<char>),
    >::empty());
    emit(&mut out, XmlOut::StartDocument(XmlVersion::Version10));
    emit(
        &mut out,
        XmlOut::StartElement {
            name: String::from_str("container"),
            attrs: one_attr("version", package::OCF_CONTAINER_VERSION),
            namespaces: one_attr("", info::NS_CONTAINER_URI),
        },
    );
    emit_start(&mut out, "rootfiles", Vec::new());
    let mut attrs = one_attr("full-path", package_file);
    add_attr(&mut attrs, "media-type", package::EPUB_PACKAGE_MEDIA_TYPE);
    assert(pair_views(attrs@) =~= seq![
        ("full-path"@, package_file@),
        ("media-type"@, "application/oebps-package+xml"@),
    ]);
    emit_start(&mut out, "rootfile", attrs);
    emit_end(&mut out);
    emit_end(&mut out);
    emit_end(&mut out);
    assert(out_views(out@) =~= container_document(package_file@));
    out
}

/// Lays out the EPUB of a book: which files the archive holds, in which
/// order, and what stands in each document. `modified` is the time of the
/// last change, as the package document is to give it. A book with a chapter
/// that cannot be written as XHTML has no archive.
pub fn write_epub(book: &Book, info: EpubFileInfo, package_id: &str, modified: &str) -> (r: Result<
    EpubArchive,
    RenderError,
>)
    ensures
        match r {
            Ok(archive) => archive.comment@ == info.title@ && archive_entries(
                book.tree@,
                extra_views(book.extra_files@),
                info@,
                package_id@,
                modified@,
            ) == Ok::<_, RenderError>(entry_views(archive.entries@)),
            Err(e) => archive_entries(
                book.tree@,
                extra_views(book.extra_files@),
                info@,
                package_id@,
                modified@,
            ) == Err::<Seq<EpubEntryView>, _>(e),
        },
{
    let ghost tree = book.tree@;
    let ghost extra = extra_views(book.extra_files@);
    let ghost nodes = preorder(tree);
    let mut entries: Vec<EpubEntry> = Vec::new();
    let mut manifest: Vec<ManifestItem> = Vec::new();
    entries.push(
        EpubEntry::Stored {
            path: String::from_str("mimetype"),
            text: String::from_str("application/epub+zip"),
        },
    );
    let ghost first = seq![
        EpubEntryView::Stored { path: "mimetype"@, text: "application/epub+zip"@ },
    ];
    assert(entry_views(entries@) =~= first);
    assert(item_views(manifest@) =~= Seq::<ManifestItemView>::empty());
    let nested = book.tree.nested();
    assert(ref_views(nested@).len() == nested@.len());
    let mut i: usize = 0;
    while i < nested.len()
        invariant
            i <= nested.len(),
            nodes == ref_views(nested@),
            nodes == preorder(book.tree@),
            nodes.len() == nested.len(),
            chapter_files(nodes, i as int) matches Ok(files) && entry_views(entries@) == first
                + files,
            item_views(manifest@) == chapter_items(nodes, i as int),
        decreases nested.len() - i,
    {
        let node = nested[i];
        assert(nodes[i as int] == node@);
        match &node.heading {
            NavHeading::Chapter(title, chapter) => {
                let path = replace_extension(chapter.dest_path.as_str(), "xhtml");
                let mut events: Vec<XmlOut> = Vec::new();
                assert(out_views(events@) =~= Seq::<XmlOutView>::empty());
                match write_chapter(chapter, &mut events) {
                    Err(e) => {
                        proof {
                            assert(node@.heading == NavHeadingView::Chapter(title@, chapter@));
                            assert(chapter_files(nodes, i + 1) == Err::<Seq<EpubEntryView>, _>(e));
                            lemma_chapter_files_error(nodes, i + 1, nodes.len() as int);
                        }
                        return Err(e);
                    },
                    Ok(()) => {},
                }
                assert(out_views(events@) =~= chapter_events(chapter@.content)->Ok_0);
                let ghost was = entry_views(entries@);
                let ghost had = item_views(manifest@);
                let entry = EpubEntry::Document { path: path.clone(), events };
                entries.push(entry);
                assert(entry_views(entries@) =~= was.push(entry@));
                let item = ManifestItem {
                    id: name_to_id(title.as_str()),
                    path,
                    media_type: String::from_str(crate::xhtml::XHTML_MEDIA),
                    properties: Vec::new(),
                    fallback: None,
                    spine: true,
                };
                manifest.push(item);
                assert(item_views(manifest@) =~= had.push(item@));
                assert(item@.properties =~= Seq::<ItemProperty>::empty());
                assert(first + chapter_files(nodes, i as int)->Ok_0.push(entry@) =~= was.push(
                    entry@,
                ));
            },
            _ => {},
        }
        i += 1;
    }
    let ghost chapters = chapter_files(nodes, nodes.len() as int)->Ok_0;
    let ghost chapter_list = chapter_items(nodes, nodes.len() as int);
    let mut properties: Vec<ItemProperty> = Vec::new();
    properties.push(ItemProperty::Nav);
    let item = ManifestItem {
        id: String::from_str("nav-toc"),
        path: String::from_str("nav.xhtml"),
        media_type: String::from_str(crate::xhtml::XHTML_MEDIA),
        properties,
        fallback: None,
        spine: false,
    };
    assert(item@.properties =~= seq![ItemProperty::Nav]);
    manifest.push(item);
    assert(item_views(manifest@) =~= chapter_list.push(nav_item()));
    let ghost was = entry_views(entries@);
    let entry = EpubEntry::Document {
        path: String::from_str("nav.xhtml"),
        events: nav_document_of(&book.tree),
    };
    entries.push(entry);
    let ghost head = first + chapters + seq![
        EpubEntryView::Document { path: "nav.xhtml"@, events: nav_document(tree) },
    ];
    assert(entry_views(entries@) =~= head);
    let ghost base = (chapter_list.len() + 1) as nat;
    let ghost listed = chapter_list.push(nav_item());
    let mut k: usize = 0;
    assert(extra.len() == book.extra_files@.len());
    while k < book.extra_files.len()
        invariant
            k <= book.extra_files.len(),
            extra == extra_views(book.extra_files@),
            base == listed.len(),
            manifest.len() == base + k,
            item_views(manifest@) == listed + extra_items(extra, base, k as int),
            entry_views(entries@) == head + extra_files(extra, k as int),
        decreases book.extra_files.len() - k,
    {
        let file = &book.extra_files[k];
        assert(extra[k as int] == file@);
        let mut id = String::from_str("non-md-res");
        let number = decimal_string(manifest.len() as u64);
        id.append(number.as_str());
        let ghost had = item_views(manifest@);
        let item = ManifestItem {
            id,
            path: file.dest_path.clone(),
            media_type: file.content_type.clone(),
            properties: Vec::new(),
            fallback: None,
            spine: false,
        };
        assert(item@.properties =~= Seq::<ItemProperty>::empty());
        manifest.push(item);
        assert(item_views(manifest@) =~= had.push(item@));
        assert(listed + extra_items(extra, base, k + 1) =~= had.push(item@));
        let ghost was = entry_views(entries@);
        let entry = EpubEntry::Copy { path: file.dest_path.clone(), source: file.src_path.clone() };
        entries.push(entry);
        assert(entry_views(entries@) =~= was.push(entry@));
        assert(head + extra_files(extra, k + 1) =~= was.push(entry@));
        k += 1;
    }
    assert(item_views(manifest@) =~= manifest_of(tree, extra));
    let comment = info.title.clone();
    let ghost info_view = info@;
    let package = EpubPackage { info, manifest };
    let mut package_file = String::from_str(package_id);
    package_file.append(".opf");
    let mut document: Vec<XmlOut> = Vec::new();
    assert(out_views(document@) =~= Seq::<XmlOutView>::empty());
    emit(&mut document, XmlOut::StartDocument(XmlVersion::Version10));
    package.serialize(modified, &mut document);
    assert(out_views(document@) =~= seq![XmlOutView::StartDocument(XmlVersion::Version10)]
        + package_document(info_view, manifest_of(tree, extra), modified@));
    let ghost was = entry_views(entries@);
    let opf = EpubEntry::Document { path: package_file.clone(), events: document };
    entries.push(opf);
    let container = EpubEntry::Document {
        path: String::from_str("META-INF/container.xml"),
        events: container_document_of(package_file.as_str()),
    };
    entries.push(container);
    assert(entry_views(entries@) =~= was + seq![opf@, container@]);
    Ok(EpubArchive { comment, entries })
}

} // verus!
