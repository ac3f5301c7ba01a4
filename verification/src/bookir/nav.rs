//! The navigation tree of a book: its parts, headings and chapters, nested
//! as the author nested them.

use super::grammar::{chapter_content, ParseError};
use super::{parse_chapter, rich_views, RichText, RichTextOptions, RichTextView};
use crate::book::{BookItem, Chapter};
use vstd::prelude::*;

verus! {

/// A chapter with its rich text.
#[derive(Debug, PartialEq, Eq)]
pub struct BookChapter {
    pub src_path: String,
    pub dest_path: String,
    pub content: Vec<RichText>,
}

/// A chapter, as a value of the model.
pub struct BookChapterView {
    pub source_path: Seq<char>,
    pub destination_path: Seq<char>,
    pub content: Seq<RichTextView>,
}

impl View for BookChapter {
    type V = BookChapterView;

    open spec fn view(&self) -> BookChapterView {
        BookChapterView {
            source_path: self.src_path@,
            destination_path: self.dest_path@,
            content: rich_views(self.content@),
        }
    }
}

/// What heads a node of the tree.
#[derive(Debug, PartialEq, Eq)]
pub enum NavHeading {
    /// A chapter with its title.
    Chapter(String, BookChapter),
    /// The title of a chapter that is rendered nowhere: a draft.
    UnboundChapter(String),
    /// The title of a part.
    Heading(String),
}

/// A node of the tree: what heads it, and the nodes under it where it has
/// any.
#[derive(Debug, PartialEq, Eq)]
pub struct NavNode {
    pub heading: NavHeading,
    pub children: Option<NavTree>,
}

/// An ordered sequence of nodes.
#[derive(Debug, PartialEq, Eq)]
pub struct NavTree(pub Vec<NavNode>);

/// What heads a node, as a value of the model.
pub enum NavHeadingView {
    Chapter(Seq<char>, BookChapterView),
    UnboundChapter(Seq<char>),
    Heading(Seq<char>),
}

/// A node of the tree, as a value of the model.
pub struct NavNodeView {
    pub heading: NavHeadingView,
    pub children: Option<Seq<NavNodeView>>,
}

impl View for NavHeading {
    type V = NavHeadingView;

    open spec fn view(&self) -> NavHeadingView {
        match self {
            NavHeading::Chapter(title, chapter) => NavHeadingView::Chapter(title@, chapter@),
            NavHeading::UnboundChapter(title) => NavHeadingView::UnboundChapter(title@),
            NavHeading::Heading(title) => NavHeadingView::Heading(title@),
        }
    }
}

/// The model of each node of `s`, in order.
pub open spec fn nav_views(s: Seq<NavNode>) -> Seq<NavNodeView>
    decreases s,
{
    Seq::new(
        s.len(),
        |i: int|
            if 0 <= i < s.len() {
                s[i]@
            } else {
                arbitrary()
            },
    )
}

impl View for NavNode {
    type V = NavNodeView;

    open spec fn view(&self) -> NavNodeView
        decreases self,
    {
        NavNodeView {
            heading: self.heading@,
            children: match self.children {
                Some(tree) => Some(nav_views(tree.0@)),
                None => None,
            },
        }
    }
}

impl View for NavTree {
    type V = Seq<NavNodeView>;

    open spec fn view(&self) -> Seq<NavNodeView> {
        nav_views(self.0@)
    }
}

/// The models of a sequence with one more node are the models of the
/// sequence with the model of that node.
pub proof fn lemma_nav_views_push(s: Seq<NavNode>, node: NavNode)
    ensures
        nav_views(s.push(node)) == nav_views(s).push(node@),
{
    reveal_with_fuel(nav_views, 2);
    let a = nav_views(s.push(node));
    let b = nav_views(s).push(node@);
    assert(a.len() == b.len());
    assert forall|i: int| 0 <= i < a.len() implies a[i] == b[i] by {
        if i < s.len() {
            assert(s.push(node)[i] == s[i]);
        } else {
            assert(s.push(node)[i] == node);
        }
    }
    assert(a =~= b);
}

/// The models of two sequences joined are their models joined.
pub proof fn lemma_nav_views_add(s: Seq<NavNode>, t: Seq<NavNode>)
    ensures
        nav_views(s + t) == nav_views(s) + nav_views(t),
{
    reveal_with_fuel(nav_views, 2);
    let a = nav_views(s + t);
    let b = nav_views(s) + nav_views(t);
    assert(a.len() == b.len());
    assert forall|i: int| 0 <= i < a.len() implies a[i] == b[i] by {
        if i < s.len() {
            assert((s + t)[i] == s[i]);
        } else {
            assert((s + t)[i] == t[i - s.len()]);
        }
    }
    assert(a =~= b);
}

/// One item of a book whose chapters have been read already.
#[derive(Debug, PartialEq, Eq)]
pub enum NavEntry {
    /// A chapter, with the chapters nested under it.
    Node(NavNode),
    /// The title that opens a part.
    PartTitle(String),
    Separator,
}

/// One item of a book, as a value of the model.
pub enum NavEntryView {
    Node(NavNodeView),
    PartTitle(Seq<char>),
    Separator,
}

impl View for NavEntry {
    type V = NavEntryView;

    open spec fn view(&self) -> NavEntryView {
        match self {
            NavEntry::Node(node) => NavEntryView::Node(node@),
            NavEntry::PartTitle(title) => NavEntryView::PartTitle(title@),
            NavEntry::Separator => NavEntryView::Separator,
        }
    }
}

/// The model of each entry of `s`, in order.
pub open spec fn entry_views(s: Seq<NavEntry>) -> Seq<NavEntryView> {
    Seq::new(s.len(), |i: int| s[i]@)
}

/// Where the assembler stands between two entries.
pub struct Grouping {
    /// The nodes that are settled at the top level.
    pub done: Seq<NavNodeView>,
    /// The chapters read since the last boundary.
    pub current: Seq<NavNodeView>,
    /// The title of the part that is open.
    pub title: Option<Seq<char>>,
}

/// The node that closes a part: its title over its chapters.
pub open spec fn part_node(title: Seq<char>, chapters: Seq<NavNodeView>) -> NavNodeView {
    NavNodeView { heading: NavHeadingView::Heading(title), children: Some(chapters) }
}

/// The state after `entry`.
///
/// A chapter joins the chapters of the current part. A part title closes the
/// part that is open, or, where none is, lets the chapters read so far stand
/// at the top level; then it opens its own part. A separator closes the part
/// that is open; where none is, it changes nothing.
pub open spec fn group_step(state: Grouping, entry: NavEntryView) -> Grouping {
    match entry {
        NavEntryView::Node(node) => Grouping { current: state.current.push(node), ..state },
        NavEntryView::PartTitle(title) => match state.title {
            Some(open) => Grouping {
                done: state.done.push(part_node(open, state.current)),
                current: Seq::empty(),
                title: Some(title),
            },
            None => Grouping {
                done: state.done + state.current,
                current: Seq::empty(),
                title: Some(title),
            },
        },
        NavEntryView::Separator => match state.title {
            Some(open) => Grouping {
                done: state.done.push(part_node(open, state.current)),
                current: Seq::empty(),
                title: None,
            },
            None => state,
        },
    }
}

/// The state after the first `n` of `entries`.
pub open spec fn group_prefix(entries: Seq<NavEntryView>, n: int) -> Grouping
    decreases n,
{
    if n <= 0 {
        Grouping { done: Seq::empty(), current: Seq::empty(), title: None }
    } else {
        group_step(group_prefix(entries, n - 1), entries[n - 1])
    }
}

/// The top level once the input has ended: the part that is open is closed;
/// where none is, the chapters read last stand at the top level.
pub open spec fn group_end(state: Grouping) -> Seq<NavNodeView> {
    match state.title {
        Some(open) => state.done.push(part_node(open, state.current)),
        None => state.done + state.current,
    }
}

/// The tree that `entries` make: consecutive chapters grouped under the part
/// title before them.
pub open spec fn grouped(entries: Seq<NavEntryView>) -> Seq<NavNodeView> {
    group_end(group_prefix(entries, entries.len() as int))
}

/// The source path that a chapter is given: its own, or the empty text
/// where it has none.
pub open spec fn source_of(ch: Chapter) -> Seq<char> {
    match ch.source_path {
        Some(source) => source@,
        None => Seq::empty(),
    }
}

/// The chapter that a chapter of the book becomes: `None` exactly for a
/// chapter without a destination, which is a draft. Any other chapter is
/// read, whether its source path is known or not.
pub open spec fn chapter_of(ch: Chapter, options: RichTextOptions) -> Result<
    Option<BookChapterView>,
    ParseError,
> {
    match ch.path {
        Some(destination) => match chapter_content(ch.content@, options) {
            Ok(content) => Ok(
                Some(
                    BookChapterView {
                        source_path: source_of(ch),
                        destination_path: destination@,
                        content,
                    },
                ),
            ),
            Err(e) => Err(e),
        },
        None => Ok(None),
    }
}

/// The entry that one item of the book becomes. A chapter is read first,
/// then the items nested under it.
pub open spec fn entry_of(item: BookItem, options: RichTextOptions) -> Result<
    NavEntryView,
    ParseError,
>
    decreases item, 0int,
{
    match item {
        BookItem::Chapter(ch) => match chapter_of(ch, options) {
            Err(e) => Err(e),
            Ok(chapter) => {
                let heading = match chapter {
                    Some(chapter) => NavHeadingView::Chapter(ch.name@, chapter),
                    None => NavHeadingView::UnboundChapter(ch.name@),
                };
                if ch.sub_items.len() == 0 {
                    Ok(NavEntryView::Node(NavNodeView { heading, children: None }))
                } else {
                    match tree_of(ch.sub_items@, options) {
                        Err(e) => Err(e),
                        Ok(children) => Ok(
                            NavEntryView::Node(NavNodeView { heading, children: Some(children) }),
                        ),
                    }
                }
            },
        },
        BookItem::PartTitle(title) => Ok(NavEntryView::PartTitle(title@)),
        BookItem::Separator => Ok(NavEntryView::Separator),
    }
}

/// The entries that the first `n` of `items` become, or the first error
/// among them.
pub open spec fn entries_of(items: Seq<BookItem>, n: int, options: RichTextOptions) -> Result<
    Seq<NavEntryView>,
    ParseError,
>
    decreases items, n,
{
    if n <= 0 || n > items.len() {
        Ok(Seq::empty())
    } else {
        match entries_of(items, n - 1, options) {
            Err(e) => Err(e),
            Ok(entries) => match entry_of(items[n - 1], options) {
                Err(e) => Err(e),
                Ok(entry) => Ok(entries.push(entry)),
            },
        }
    }
}

/// The tree of a sequence of items of the book.
pub open spec fn tree_of(items: Seq<BookItem>, options: RichTextOptions) -> Result<
    Seq<NavNodeView>,
    ParseError,
>
    decreases items, items.len() + 1,
{
    match entries_of(items, items.len() as int, options) {
        Err(e) => Err(e),
        Ok(entries) => Ok(grouped(entries)),
    }
}


/// The nodes of `nodes` and of everything under them, each node before its
/// children: first those of the first `n` nodes.
pub open spec fn preorder_prefix(nodes: Seq<NavNodeView>, n: int) -> Seq<NavNodeView>
    decreases nodes, n,
{
    if n <= 0 || n > nodes.len() {
        Seq::empty()
    } else {
        preorder_prefix(nodes, n - 1) + node_preorder(nodes[n - 1])
    }
}

/// A node, then everything under it.
pub open spec fn node_preorder(node: NavNodeView) -> Seq<NavNodeView>
    decreases node,
{
    match node.children {
        Some(children) => seq![node] + preorder_prefix(children, children.len() as int),
        None => seq![node],
    }
}

/// Every node of a tree, each before its children and before the nodes that
/// follow it.
pub open spec fn preorder(nodes: Seq<NavNodeView>) -> Seq<NavNodeView> {
    preorder_prefix(nodes, nodes.len() as int)
}

/// The model of each node that `s` refers to, in order.
pub open spec fn ref_views(s: Seq<&NavNode>) -> Seq<NavNodeView> {
    Seq::new(s.len(), |i: int| (*s[i])@)
}

/// An error among the first items is the error of the whole sequence.
pub proof fn lemma_entries_error(
    items: Seq<BookItem>,
    first: int,
    n: int,
    options: RichTextOptions,
)
    requires
        0 < first <= n <= items.len(),
        entries_of(items, first, options) is Err,
    ensures
        entries_of(items, n, options) == entries_of(items, first, options),
    decreases n - first,
{
    if first < n {
        lemma_entries_error(items, first, n - 1, options);
    }
}

impl BookChapter {
    /// Reads a chapter of the book. A chapter without a destination, a
    /// draft, gives `None`; a chapter without a source path is read with the
    /// empty text in its place.
    pub fn from_chapter(ch: &Chapter, opts: RichTextOptions) -> (r: Result<
        Option<BookChapter>,
        ParseError,
    >)
        ensures
            match r {
                Ok(Some(chapter)) => chapter_of(*ch, opts) == Ok::<_, ParseError>(Some(chapter@)),
                Ok(None) => chapter_of(*ch, opts) == Ok::<_, ParseError>(
                    None::<BookChapterView>,
                ),
                Err(e) => chapter_of(*ch, opts) == Err::<Option<BookChapterView>, _>(e),
            },
    {
        match &ch.path {
            Some(destination) => {
                match parse_chapter(ch.content.as_str(), opts) {
                    Ok(content) => Ok(
                        Some(
                            BookChapter {
                                src_path: match &ch.source_path {
                                    Some(source) => source.clone(),
                                    None => String::new(),
                                },
                                dest_path: destination.clone(),
                                content,
                            },
                        ),
                    ),
                    Err(e) => Err(e),
                }
            },
            None => Ok(None),
        }
    }
}

/// A chapter is unbound exactly when it has no destination: the node of a
/// chapter with a destination is headed by the chapter, with that
/// destination and the rich text of its content, and the node of a chapter
/// without one is headed by its title alone.
pub proof fn lemma_unbound_iff_no_destination(ch: Chapter, options: RichTextOptions)
    ensures
        match entry_of(BookItem::Chapter(ch), options) {
            Ok(NavEntryView::Node(node)) => match ch.path {
                None => node.heading == NavHeadingView::UnboundChapter(ch.name@),
                Some(destination) => node.heading matches NavHeadingView::Chapter(name, data)
                    && name == ch.name@ && data.destination_path == destination@
                    && chapter_content(ch.content@, options) == Ok::<_, ParseError>(data.content),
            },
            Ok(_) => false,
            Err(_) => true,
        },
{
    reveal_with_fuel(entry_of, 2);
}

impl NavTree {
    /// A tree without nodes.
    pub fn new() -> (tree: NavTree)
        ensures
            tree@ == Seq::<NavNodeView>::empty(),
    {
        let tree = NavTree(Vec::new());
        assert(tree@ =~= Seq::<NavNodeView>::empty());
        tree
    }

    /// The tree whose top level is `v`.
    pub fn from_vec(v: Vec<NavNode>) -> (tree: NavTree)
        ensures
            tree@ == nav_views(v@),
            tree.0 == v,
    {
        NavTree(v)
    }

    /// Adds the top level of `tree` after the top level of `self`.
    pub fn append_tree(&mut self, tree: NavTree)
        ensures
            final(self)@ == old(self)@ + tree@,
    {
        let mut other = tree.0;
        proof {
            lemma_nav_views_add(self.0@, other@);
        }
        self.0.append(&mut other);
    }

    /// Adds `node` at the end of the top level.
    pub fn push(&mut self, node: NavNode)
        ensures
            final(self)@ == old(self)@.push(node@),
    {
        proof {
            lemma_nav_views_push(self.0@, node);
        }
        self.0.push(node);
    }

    /// The nodes of the top level, in order.
    pub fn iter(&self) -> (nodes: &Vec<NavNode>)
        ensures
            nav_views(nodes@) == self@,
    {
        &self.0
    }

    /// Adds to `out` every node of `nodes`, each before its children.
    fn walk<'a>(nodes: &'a Vec<NavNode>, out: &mut Vec<&'a NavNode>)
        ensures
            ref_views(final(out)@) == ref_views(old(out)@) + preorder(nav_views(nodes@)),
        decreases nodes,
    {
        let ghost views = nav_views(nodes@);
        let ghost start = ref_views(out@);
        let mut i: usize = 0;
        assert(ref_views(out@) =~= start + preorder_prefix(views, 0));
        while i < nodes.len()
            invariant
                i <= nodes.len(),
                views == nav_views(nodes@),
                ref_views(out@) == start + preorder_prefix(views, i as int),
            decreases nodes.len() - i,
        {
            let node = &nodes[i];
            let ghost before = ref_views(out@);
            proof {
                reveal_with_fuel(nav_views, 2);
                assert(views[i as int] == node@);
            }
            out.push(node);
            assert(ref_views(out@) =~= before + seq![node@]);
            match &node.children {
                Some(children) => {
                    Self::walk(&children.0, out);
                    assert(ref_views(out@) =~= before + node_preorder(node@));
                },
                None => {},
            }
            assert(start + preorder_prefix(views, i + 1) =~= before + node_preorder(node@));
            i += 1;
        }
    }

    /// Every node of the tree, each before its children and before the nodes
    /// that follow it.
    pub fn nested(&self) -> (nodes: Vec<&NavNode>)
        ensures
            ref_views(nodes@) == preorder(self@),
    {
        let mut nodes: Vec<&NavNode> = Vec::new();
        assert(ref_views(nodes@) =~= Seq::<NavNodeView>::empty());
        Self::walk(&self.0, &mut nodes);
        assert(Seq::<NavNodeView>::empty() + preorder(self@) =~= preorder(self@));
        nodes
    }

    /// Groups consecutive chapters under the part title before them.
    ///
    /// A part runs from its title to the next title or separator. Chapters
    /// before the first title, and chapters after a separator, stand at the
    /// top level.
    pub fn group(entries: Vec<NavEntry>) -> (tree: NavTree)
        ensures
            tree@ == grouped(entry_views(entries@)),
    {
        let ghost all = entry_views(entries@);
        let mut done: Vec<NavNode> = Vec::new();
        let mut current: Vec<NavNode> = Vec::new();
        let mut title: Option<String> = None;
        assert(nav_views(done@) =~= Seq::<NavNodeView>::empty());
        assert(nav_views(current@) =~= Seq::<NavNodeView>::empty());
        for entry in it: entries
            invariant
                it.seq() == entries@,
                all == entry_views(entries@),
                group_prefix(all, it.index() as int) == (Grouping {
                    done: nav_views(done@),
                    current: nav_views(current@),
                    title: match title {
                        Some(t) => Some(t@),
                        None => None,
                    },
                }),
        {
            assert(all[it.index() as int] == entry@);
            match entry {
                NavEntry::Node(node) => {
                    proof {
                        lemma_nav_views_push(current@, node);
                    }
                    current.push(node);
                },
                NavEntry::PartTitle(next) => {
                    match title {
                        Some(open) => {
                            let part = NavNode {
                                heading: NavHeading::Heading(open),
                                children: Some(NavTree(current)),
                            };
                            proof {
                                lemma_nav_views_push(done@, part);
                            }
                            done.push(part);
                            current = Vec::new();
                        },
                        None => {
                            proof {
                                lemma_nav_views_add(done@, current@);
                            }
                            done.append(&mut current);
                        },
                    }
                    assert(nav_views(current@) =~= Seq::<NavNodeView>::empty());
                    title = Some(next);
                },
                NavEntry::Separator => {
                    match title {
                        Some(open) => {
                            let part = NavNode {
                                heading: NavHeading::Heading(open),
                                children: Some(NavTree(current)),
                            };
                            proof {
                                lemma_nav_views_push(done@, part);
                            }
                            done.push(part);
                            current = Vec::new();
                            assert(nav_views(current@) =~= Seq::<NavNodeView>::empty());
                            title = None;
                        },
                        None => {
                            title = None;
                        },
                    }
                },
            }
        }
        match title {
            Some(open) => {
                let part = NavNode {
                    heading: NavHeading::Heading(open),
                    children: Some(NavTree(current)),
                };
                proof {
                    lemma_nav_views_push(done@, part);
                }
                done.push(part);
            },
            None => {
                proof {
                    lemma_nav_views_add(done@, current@);
                }
                done.append(&mut current);
            },
        }
        NavTree(done)
    }

    /// The entry that one item of the book becomes: a chapter is read, with
    /// the chapters nested under it.
    pub fn entry_for(item: &BookItem, opts: RichTextOptions) -> (r: Result<NavEntry, ParseError>)
        ensures
            match r {
                Ok(entry) => entry_of(*item, opts) == Ok::<_, ParseError>(entry@),
                Err(e) => entry_of(*item, opts) == Err::<NavEntryView, _>(e),
            },
        decreases item, 0int,
    {
        match item {
            BookItem::Chapter(ch) => {
                let heading = match BookChapter::from_chapter(ch, opts) {
                    Err(e) => {
                        return Err(e);
                    },
                    Ok(Some(chapter)) => NavHeading::Chapter(ch.name.clone(), chapter),
                    Ok(None) => NavHeading::UnboundChapter(ch.name.clone()),
                };
                let children = if ch.sub_items.len() == 0 {
                    None
                } else {
                    match Self::from_items(&ch.sub_items, opts) {
                        Err(e) => {
                            return Err(e);
                        },
                        Ok(tree) => Some(tree),
                    }
                };
                Ok(NavEntry::Node(NavNode { heading, children }))
            },
            BookItem::PartTitle(title) => Ok(NavEntry::PartTitle(title.clone())),
            BookItem::Separator => Ok(NavEntry::Separator),
        }
    }

    /// Builds the tree of a sequence of items of the book: each chapter is
    /// read, with the chapters nested under it, and the chapters are grouped
    /// under their part titles.
    pub fn from_items(items: &Vec<BookItem>, opts: RichTextOptions) -> (r: Result<
        NavTree,
        ParseError,
    >)
        ensures
            match r {
                Ok(tree) => tree_of(items@, opts) == Ok::<_, ParseError>(tree@),
                Err(e) => tree_of(items@, opts) == Err::<Seq<NavNodeView>, _>(e),
            },
        decreases items, items.len() + 1,
    {
        let mut entries: Vec<NavEntry> = Vec::new();
        let mut i: usize = 0;
        assert(entry_views(entries@) =~= Seq::<NavEntryView>::empty());
        while i < items.len()
            invariant
                i <= items.len(),
                entries_of(items@, i as int, opts) == Ok::<_, ParseError>(entry_views(entries@)),
            decreases items.len() - i,
        {
            let ghost before = entry_views(entries@);
            match Self::entry_for(&items[i], opts) {
                Err(e) => {
                    proof {
                        lemma_entries_error(items@, i + 1, items.len() as int, opts);
                    }
                    return Err(e);
                },
                Ok(entry) => {
                    entries.push(entry);
                    assert(entry_views(entries@) =~= before.push(entry@));
                },
            }
            i += 1;
        }
        Ok(Self::group(entries))
    }

    /// Builds the tree of a sequence of items that are referred to.
    pub fn from_item_refs(items: &Vec<&BookItem>, opts: RichTextOptions) -> (r: Result<
        NavTree,
        ParseError,
    >)
        ensures
            match r {
                Ok(tree) => tree_of(referred(items@), opts) == Ok::<_, ParseError>(tree@),
                Err(e) => tree_of(referred(items@), opts) == Err::<Seq<NavNodeView>, _>(e),
            },
    {
        let ghost all = referred(items@);
        let mut entries: Vec<NavEntry> = Vec::new();
        let mut i: usize = 0;
        assert(entry_views(entries@) =~= Seq::<NavEntryView>::empty());
        while i < items.len()
            invariant
                i <= items.len(),
                all == referred(items@),
                entries_of(all, i as int, opts) == Ok::<_, ParseError>(entry_views(entries@)),
            decreases items.len() - i,
        {
            let ghost before = entry_views(entries@);
            assert(all[i as int] == *items@[i as int]);
            match Self::entry_for(items[i], opts) {
                Err(e) => {
                    proof {
                        lemma_entries_error(all, i + 1, all.len() as int, opts);
                    }
                    return Err(e);
                },
                Ok(entry) => {
                    entries.push(entry);
                    assert(entry_views(entries@) =~= before.push(entry@));
                },
            }
            i += 1;
        }
        Ok(Self::group(entries))
    }
}

/// The items that `refs` refer to, in order.
pub open spec fn referred(refs: Seq<&BookItem>) -> Seq<BookItem> {
    Seq::new(refs.len(), |i: int| *refs[i])
}


/// Whether an entry ends a part: a part title or a separator.
pub open spec fn is_boundary(entry: NavEntryView) -> bool {
    entry is PartTitle || entry is Separator
}

/// The chapters `nodes` as entries.
pub open spec fn chapter_entries(nodes: Seq<NavNodeView>) -> Seq<NavEntryView> {
    Seq::new(nodes.len(), |i: int| NavEntryView::Node(nodes[i]))
}

/// The nodes among the first `n` of `s` that are no titles of parts: the
/// chapters and the drafts, in order.
pub open spec fn chapters_among(s: Seq<NavNodeView>, n: int) -> Seq<NavNodeView>
    decreases n,
{
    if n <= 0 {
        Seq::empty()
    } else if s[n - 1].heading is Heading {
        chapters_among(s, n - 1)
    } else {
        chapters_among(s, n - 1).push(s[n - 1])
    }
}

/// The chapters and the drafts of `s`, in order.
pub open spec fn chapters_in(s: Seq<NavNodeView>) -> Seq<NavNodeView> {
    chapters_among(s, s.len() as int)
}

/// Every node that the first `n` of `entries` hand to the assembler, each
/// with everything under it.
pub open spec fn handed(entries: Seq<NavEntryView>, n: int) -> Seq<NavNodeView>
    decreases n,
{
    if n <= 0 {
        Seq::empty()
    } else {
        handed(entries, n - 1) + (match entries[n - 1] {
            NavEntryView::Node(node) => node_preorder(node),
            _ => Seq::empty(),
        })
    }
}

/// The chapters among two sequences joined, up to a place in the second:
/// those of the first, then those of the second up to that place.
proof fn lemma_chapters_among_add(a: Seq<NavNodeView>, b: Seq<NavNodeView>, n: int)
    requires
        0 <= n <= b.len(),
    ensures
        chapters_among(a + b, a.len() + n) == chapters_in(a) + chapters_among(b, n),
    decreases n,
{
    if n == 0 {
        lemma_chapters_among_same(a + b, a, a.len() as int);
        assert(chapters_in(a) + chapters_among(b, 0) =~= chapters_in(a));
    } else {
        lemma_chapters_among_add(a, b, n - 1);
        assert((a + b)[a.len() + n - 1] == b[n - 1]);
        if !(b[n - 1].heading is Heading) {
            assert(chapters_in(a) + chapters_among(b, n - 1).push(b[n - 1]) =~= (chapters_in(a)
                + chapters_among(b, n - 1)).push(b[n - 1]));
        }
    }
}

/// Sequences that begin alike have the same chapters among their first
/// nodes.
proof fn lemma_chapters_among_same(a: Seq<NavNodeView>, b: Seq<NavNodeView>, n: int)
    requires
        0 <= n <= a.len(),
        n <= b.len(),
        forall|i: int| 0 <= i < n ==> a[i] == b[i],
    ensures
        chapters_among(a, n) == chapters_among(b, n),
    decreases n,
{
    if n > 0 {
        lemma_chapters_among_same(a, b, n - 1);
    }
}

/// The chapters of two sequences joined are their chapters joined.
pub proof fn lemma_chapters_in_add(a: Seq<NavNodeView>, b: Seq<NavNodeView>)
    ensures
        chapters_in(a + b) == chapters_in(a) + chapters_in(b),
{
    lemma_chapters_among_add(a, b, b.len() as int);
}

/// Trees that begin alike have the same nodes under their first nodes.
proof fn lemma_preorder_prefix_same(a: Seq<NavNodeView>, b: Seq<NavNodeView>, n: int)
    requires
        0 <= n <= a.len(),
        n <= b.len(),
        forall|i: int| 0 <= i < n ==> a[i] == b[i],
    ensures
        preorder_prefix(a, n) == preorder_prefix(b, n),
    decreases n,
{
    if n > 0 {
        lemma_preorder_prefix_same(a, b, n - 1);
    }
}

/// The nodes of two trees joined, up to a place in the second: those of
/// the first, then those of the second up to that place.
proof fn lemma_preorder_prefix_add(a: Seq<NavNodeView>, b: Seq<NavNodeView>, n: int)
    requires
        0 <= n <= b.len(),
    ensures
        preorder_prefix(a + b, a.len() + n) == preorder(a) + preorder_prefix(b, n),
    decreases n,
{
    if n == 0 {
        lemma_preorder_prefix_same(a + b, a, a.len() as int);
        assert(preorder(a) + preorder_prefix(b, 0) =~= preorder(a));
    } else {
        lemma_preorder_prefix_add(a, b, n - 1);
        assert((a + b)[a.len() + n - 1] == b[n - 1]);
        assert(preorder(a) + (preorder_prefix(b, n - 1) + node_preorder(b[n - 1])) =~= (preorder(a)
            + preorder_prefix(b, n - 1)) + node_preorder(b[n - 1]));
    }
}

/// The nodes of two trees joined are their nodes joined.
pub proof fn lemma_preorder_add(a: Seq<NavNodeView>, b: Seq<NavNodeView>)
    ensures
        preorder(a + b) == preorder(a) + preorder(b),
{
    lemma_preorder_prefix_add(a, b, b.len() as int);
}

/// A part adds no chapter of its own: its chapters are those under it.
proof fn lemma_part_chapters(done: Seq<NavNodeView>, title: Seq<char>, current: Seq<NavNodeView>)
    ensures
        chapters_in(preorder(done.push(part_node(title, current)))) == chapters_in(
            preorder(done) + preorder(current),
        ),
{
    let part = part_node(title, current);
    assert(done.push(part) =~= done + seq![part]);
    lemma_preorder_add(done, seq![part]);
    assert(preorder(seq![part]) =~= node_preorder(part)) by {
        reveal_with_fuel(preorder_prefix, 2);
    }
    assert(node_preorder(part) == seq![part] + preorder(current));
    lemma_chapters_in_add(preorder(done), node_preorder(part));
    lemma_chapters_in_add(seq![part], preorder(current));
    assert(chapters_in(seq![part]) =~= Seq::<NavNodeView>::empty()) by {
        reveal_with_fuel(chapters_among, 2);
    }
    lemma_chapters_in_add(preorder(done), preorder(current));
    assert(Seq::<NavNodeView>::empty() + chapters_in(preorder(current)) =~= chapters_in(
        preorder(current),
    ));
}

/// Between two entries, the chapters that are settled and those of the
/// part that is open are the chapters handed over so far.
proof fn lemma_grouping_keeps_chapters(entries: Seq<NavEntryView>, n: int)
    requires
        0 <= n <= entries.len(),
    ensures
        chapters_in(
            preorder(group_prefix(entries, n).done) + preorder(group_prefix(entries, n).current),
        ) == chapters_in(handed(entries, n)),
    decreases n,
{
    if n == 0 {
        assert(preorder(Seq::<NavNodeView>::empty()) + preorder(Seq::<NavNodeView>::empty())
            =~= handed(entries, 0));
    } else {
        lemma_grouping_keeps_chapters(entries, n - 1);
        let was = group_prefix(entries, n - 1);
        let now = group_prefix(entries, n);
        let empty = Seq::<NavNodeView>::empty();
        assert(preorder(empty) =~= empty);
        match entries[n - 1] {
            NavEntryView::Node(node) => {
                assert(was.current.push(node) =~= was.current + seq![node]);
                lemma_preorder_add(was.current, seq![node]);
                assert(preorder(seq![node]) =~= node_preorder(node)) by {
                    reveal_with_fuel(preorder_prefix, 2);
                }
                assert(preorder(now.done) + preorder(now.current) =~= (preorder(was.done)
                    + preorder(was.current)) + node_preorder(node));
                lemma_chapters_in_add(
                    preorder(was.done) + preorder(was.current),
                    node_preorder(node),
                );
                lemma_chapters_in_add(handed(entries, n - 1), node_preorder(node));
            },
            _ => {
                assert(handed(entries, n) =~= handed(entries, n - 1));
                match was.title {
                    Some(open) => {
                        lemma_part_chapters(was.done, open, was.current);
                        assert(preorder(now.done) + preorder(now.current) =~= preorder(now.done));
                    },
                    None => {
                        if entries[n - 1] is PartTitle {
                            lemma_preorder_add(was.done, was.current);
                            assert(preorder(now.done) + preorder(now.current) =~= preorder(
                                was.done,
                            ) + preorder(was.current));
                        }
                    },
                }
            },
        }
    }
}

/// Grouping loses no chapter, adds none and keeps their order: read each
/// node before its children, the chapters and drafts of the tree are those
/// that were handed to the assembler, each once and in the order in which
/// they came.
pub proof fn lemma_grouped_keeps_chapters(entries: Seq<NavEntryView>)
    ensures
        chapters_in(preorder(grouped(entries))) == chapters_in(
            handed(entries, entries.len() as int),
        ),
{
    let end = group_prefix(entries, entries.len() as int);
    lemma_grouping_keeps_chapters(entries, entries.len() as int);
    match end.title {
        Some(open) => {
            lemma_part_chapters(end.done, open, end.current);
        },
        None => {
            lemma_preorder_add(end.done, end.current);
        },
    }
}

/// What is settled at the top level stays there, at its place.
pub proof fn lemma_done_grows(entries: Seq<NavEntryView>, n: int, m: int)
    requires
        0 <= n <= m <= entries.len(),
    ensures
        group_prefix(entries, n).done.len() <= group_prefix(entries, m).done.len(),
        group_prefix(entries, m).done.take(group_prefix(entries, n).done.len() as int)
            == group_prefix(entries, n).done,
    decreases m - n,
{
    let base = group_prefix(entries, n).done;
    if n < m {
        lemma_done_grows(entries, n, m - 1);
        let before = group_prefix(entries, m - 1);
        let after = group_prefix(entries, m);
        assert(after.done.take(base.len() as int) =~= before.done.take(base.len() as int));
    } else {
        assert(base.take(base.len() as int) =~= base);
    }
}

/// While chapters follow a part title, they gather under it.
proof fn lemma_chapters_gather(
    entries: Seq<NavEntryView>,
    start: int,
    chapters: Seq<NavNodeView>,
    k: int,
)
    requires
        0 <= start,
        0 <= k <= chapters.len(),
        start + chapters.len() <= entries.len(),
        forall|i: int|
            0 <= i < chapters.len() ==> entries[start + i] == NavEntryView::Node(chapters[i]),
    ensures
        group_prefix(entries, start + k).done == group_prefix(entries, start).done,
        group_prefix(entries, start + k).title == group_prefix(entries, start).title,
        group_prefix(entries, start + k).current == group_prefix(entries, start).current
            + chapters.take(k),
    decreases k,
{
    let base = group_prefix(entries, start);
    if k > 0 {
        lemma_chapters_gather(entries, start, chapters, k - 1);
        assert(entries[start + k - 1] == NavEntryView::Node(chapters[k - 1]));
        assert(base.current + chapters.take(k) =~= (base.current + chapters.take(k - 1)).push(
            chapters[k - 1],
        ));
    } else {
        assert(base.current + chapters.take(0) =~= base.current);
    }
}

/// A part holds exactly the chapters between its title and the next
/// boundary: where a part title is followed by chapters, and those by a part
/// title, a separator or the end of the input, the tree has a node with that
/// title whose children are those chapters and no others.
pub proof fn lemma_part_holds_its_chapters(
    before: Seq<NavEntryView>,
    title: Seq<char>,
    chapters: Seq<NavNodeView>,
    rest: Seq<NavEntryView>,
)
    requires
        rest.len() > 0 ==> is_boundary(rest[0]),
    ensures
        ({
            let entries = before + seq![NavEntryView::PartTitle(title)] + chapter_entries(
                chapters,
            ) + rest;
            let at = group_prefix(entries, before.len() as int + 1).done.len() as int;
            at < grouped(entries).len() && grouped(entries)[at] == part_node(title, chapters)
        }),
{
    let entries = before + seq![NavEntryView::PartTitle(title)] + chapter_entries(chapters)
        + rest;
    let start = before.len() as int + 1;
    let opened = group_prefix(entries, start);
    assert(entries[before.len() as int] == NavEntryView::PartTitle(title));
    assert(opened.title == Some(title));
    assert(opened.current =~= Seq::<NavNodeView>::empty());
    assert forall|i: int| 0 <= i < chapters.len() implies entries[start + i]
        == NavEntryView::Node(chapters[i]) by {
        assert(entries[start + i] == chapter_entries(chapters)[i]);
    }
    lemma_chapters_gather(entries, start, chapters, chapters.len() as int);
    let end = start + chapters.len();
    let gathered = group_prefix(entries, end);
    assert(chapters.take(chapters.len() as int) =~= chapters);
    assert(gathered.current =~= chapters);
    let at = opened.done.len() as int;
    if rest.len() == 0 {
        assert(entries.len() == end);
        assert(grouped(entries) == gathered.done.push(part_node(title, chapters)));
    } else {
        assert(entries[end] == rest[0]);
        let closed = group_prefix(entries, end + 1);
        assert(closed.done == gathered.done.push(part_node(title, chapters)));
        lemma_done_grows(entries, end + 1, entries.len() as int);
        let last = group_prefix(entries, entries.len() as int);
        assert(last.done.take(closed.done.len() as int)[at] == last.done[at]);
        match last.title {
            Some(open) => {
                assert(grouped(entries)[at] == last.done[at]);
            },
            None => {
                assert(grouped(entries)[at] == last.done[at]);
            },
        }
    }
}


impl Clone for BookChapter {
    fn clone(&self) -> (copy: BookChapter)
        ensures
            copy@ == self@,
    {
        let mut content: Vec<RichText> = Vec::new();
        let mut i: usize = 0;
        while i < self.content.len()
            invariant
                i <= self.content.len(),
                content@.len() == i,
                forall|j: int| 0 <= j < i ==> content@[j]@ == self.content@[j]@,
            decreases self.content.len() - i,
        {
            content.push(self.content[i].clone());
            i += 1;
        }
        proof {
            reveal_with_fuel(rich_views, 2);
            assert(rich_views(content@) =~= rich_views(self.content@));
        }
        BookChapter { src_path: self.src_path.clone(), dest_path: self.dest_path.clone(), content }
    }
}

impl Clone for NavHeading {
    fn clone(&self) -> (copy: NavHeading)
        ensures
            copy@ == self@,
    {
        match self {
            NavHeading::Chapter(title, chapter) => NavHeading::Chapter(
                title.clone(),
                chapter.clone(),
            ),
            NavHeading::UnboundChapter(title) => NavHeading::UnboundChapter(title.clone()),
            NavHeading::Heading(title) => NavHeading::Heading(title.clone()),
        }
    }
}

fn clone_nav_nodes(nodes: &Vec<NavNode>) -> (copy: Vec<NavNode>)
    ensures
        nav_views(copy@) == nav_views(nodes@),
    decreases nodes, 1int,
{
    let mut copy: Vec<NavNode> = Vec::new();
    let mut i: usize = 0;
    while i < nodes.len()
        invariant
            i <= nodes.len(),
            copy@.len() == i,
            forall|j: int| 0 <= j < i ==> copy@[j]@ == nodes@[j]@,
        decreases nodes.len() - i,
    {
        copy.push(nodes[i].clone());
        i += 1;
    }
    proof {
        reveal_with_fuel(nav_views, 2);
        assert(nav_views(copy@) =~= nav_views(nodes@));
    }
    copy
}

impl Clone for NavNode {
    fn clone(&self) -> (copy: NavNode)
        ensures
            copy@ == self@,
        decreases self, 0int,
    {
        NavNode {
            heading: self.heading.clone(),
            children: match &self.children {
                Some(tree) => Some(NavTree(clone_nav_nodes(&tree.0))),
                None => None,
            },
        }
    }
}

impl Clone for NavTree {
    fn clone(&self) -> (copy: NavTree)
        ensures
            copy@ == self@,
    {
        NavTree(clone_nav_nodes(&self.0))
    }
}

} // verus!
