//! A navigation tree rebuilt from a flat stream of markers.
//!
//! A renderer that walks a book once writes down what it meets: a heading
//! when a part begins, a chapter, an end when a part is over. [`NavTree::treeify`]
//! nests such a stream.

use crate::xhtml::{
    append_events, emit_end, emit_start, emit_text, one_attr, out_views, start, wrapped, XmlOut,
    XmlOutView,
};
use vstd::prelude::*;
use vstd::string::*;

verus! {

/// What heads a node. In a flat stream `Heading` opens a part and `End`
/// closes the part opened last.
#[derive(Clone, Debug, Hash, PartialEq, Eq)]
pub enum NavHeading {
    /// A chapter: its title and where it is rendered to.
    Chapter(String, String),
    Heading(String),
    End,
}

/// A node of the tree: what heads it, and the nodes under it where it has
/// any.
#[derive(Debug, Hash, PartialEq, Eq)]
pub struct NavNode {
    pub heading: NavHeading,
    pub children: Option<NavTree>,
}

/// An ordered sequence of nodes.
#[derive(Debug, Hash, PartialEq, Eq)]
pub struct NavTree {
    pub subnodes: Vec<NavNode>,
}

/// Why a stream of markers makes no tree.
#[derive(Clone, Copy, Debug, Hash, PartialEq, Eq)]
pub enum NavError {
    /// Unmatched begin/end groups: an end without a part to close, or a part
    /// that is never closed.
    UnmatchedGroups,
}

/// What heads a node, as a value of the model.
pub enum NavHeadingView {
    Chapter(Seq<char>, Seq<char>),
    Heading(Seq<char>),
    End,
}

/// A node of the tree, as a value of the model.
pub struct NavNodeView {
    pub heading: NavHeadingView,
    pub children: Option<Seq<NavNodeView>>,
}

impl View for NavHeading {
    type V = NavHeadingView;

    open spec fn view(&self) -> NavHeadingView {
        match self {
            NavHeading::Chapter(title, path) => NavHeadingView::Chapter(title@, path@),
            NavHeading::Heading(title) => NavHeadingView::Heading(title@),
            NavHeading::End => NavHeadingView::End,
        }
    }
}

/// The model of each node of `s`, in order.
pub open spec fn node_views(s: Seq<NavNode>) -> Seq<NavNodeView>
    decreases s,
{
    Seq::new(
        s.len(),
        |i: int|
            if 0 <= i < s.len() {
                s[i]@
            } else {
                arbitrary()
            },
    )
}

impl View for NavNode {
    type V = NavNodeView;

    open spec fn view(&self) -> NavNodeView
        decreases self,
    {
        NavNodeView {
            heading: self.heading@,
            children: match self.children {
                Some(tree) => Some(node_views(tree.subnodes@)),
                None => None,
            },
        }
    }
}

impl View for NavTree {
    type V = Seq<NavNodeView>;

    open spec fn view(&self) -> Seq<NavNodeView> {
        node_views(self.subnodes@)
    }
}

/// The models of a sequence with one more node are the models of the
/// sequence with the model of that node.
pub proof fn lemma_node_views_push(s: Seq<NavNode>, node: NavNode)
    ensures
        node_views(s.push(node)) == node_views(s).push(node@),
{
    reveal_with_fuel(node_views, 2);
    let a = node_views(s.push(node));
    let b = node_views(s).push(node@);
    assert(a.len() == b.len());
    assert forall|i: int| 0 <= i < a.len() implies a[i] == b[i] by {
        if i < s.len() {
            assert(s.push(node)[i] == s[i]);
        } else {
            assert(s.push(node)[i] == node);
        }
    }
    assert(a =~= b);
}

/// A part that is open: its title and the nodes gathered under it so far.
pub struct OpenPartView {
    pub title: Seq<char>,
    pub nodes: Seq<NavNodeView>,
}

/// Where the assembler stands between two markers: the top level, and the
/// parts that are open, the innermost last.
pub struct Assembly {
    pub root: Seq<NavNodeView>,
    pub open: Seq<OpenPartView>,
}

/// `node` added where nodes go now: under the innermost open part, or at the
/// top level where none is open.
pub open spec fn placed(a: Assembly, node: NavNodeView) -> Assembly {
    if a.open.len() == 0 {
        Assembly { root: a.root.push(node), ..a }
    } else {
        let top = a.open.last();
        Assembly {
            open: a.open.drop_last().push(OpenPartView { nodes: top.nodes.push(node), ..top }),
            ..a
        }
    }
}

/// The state after `marker`, `None` where it is an end with no part open.
///
/// A heading opens a part with nothing under it yet. A chapter is placed. An
/// end closes the innermost part, which is placed with what it gathered.
pub open spec fn assembly_step(a: Assembly, marker: NavNodeView) -> Option<Assembly> {
    match marker.heading {
        NavHeadingView::Heading(title) => Some(
            Assembly { open: a.open.push(OpenPartView { title, nodes: Seq::empty() }), ..a },
        ),
        NavHeadingView::Chapter(_, _) => Some(placed(a, marker)),
        NavHeadingView::End => if a.open.len() == 0 {
            None
        } else {
            let top = a.open.last();
            Some(
                placed(
                    Assembly { open: a.open.drop_last(), ..a },
                    NavNodeView {
                        heading: NavHeadingView::Heading(top.title),
                        children: Some(top.nodes),
                    },
                ),
            )
        },
    }
}

/// The state after the first `n` of `markers`.
pub open spec fn assembly_prefix(markers: Seq<NavNodeView>, n: int) -> Option<Assembly>
    decreases n,
{
    if n <= 0 {
        Some(Assembly { root: Seq::empty(), open: Seq::empty() })
    } else {
        match assembly_prefix(markers, n - 1) {
            Some(a) => assembly_step(a, markers[n - 1]),
            None => None,
        }
    }
}

/// The tree that a stream of markers makes, `None` where its groups do not
/// match.
pub open spec fn treeified(markers: Seq<NavNodeView>) -> Option<Seq<NavNodeView>> {
    match assembly_prefix(markers, markers.len() as int) {
        Some(a) => if a.open.len() == 0 {
            Some(a.root)
        } else {
            None
        },
        None => None,
    }
}

/// The number of parts that are open after the first `n` of `markers`, `None`
/// once an end has come with no part open.
pub open spec fn depth_after(markers: Seq<NavNodeView>, n: int) -> Option<nat>
    decreases n,
{
    if n <= 0 {
        Some(0)
    } else {
        match depth_after(markers, n - 1) {
            None => None,
            Some(d) => match markers[n - 1].heading {
                NavHeadingView::Heading(_) => Some(d + 1),
                NavHeadingView::Chapter(_, _) => Some(d),
                NavHeadingView::End => if d == 0 {
                    None
                } else {
                    Some((d - 1) as nat)
                },
            },
        }
    }
}

/// A stream is balanced where no end comes with no part open and no part is
/// left open.
pub open spec fn balanced(markers: Seq<NavNodeView>) -> bool {
    depth_after(markers, markers.len() as int) == Some(0nat)
}

/// The assembler keeps as many parts open as the markers say.
pub proof fn lemma_depth(markers: Seq<NavNodeView>, n: int)
    requires
        0 <= n <= markers.len(),
    ensures
        match depth_after(markers, n) {
            Some(d) => assembly_prefix(markers, n) matches Some(a) && a.open.len() == d,
            None => assembly_prefix(markers, n) is None,
        },
    decreases n,
{
    if n > 0 {
        lemma_depth(markers, n - 1);
    }
}

/// A stream makes a tree exactly when it is balanced.
pub proof fn lemma_treeified_iff_balanced(markers: Seq<NavNodeView>)
    ensures
        treeified(markers) is Some <==> balanced(markers),
{
    lemma_depth(markers, markers.len() as int);
}

/// A part that is open.
struct OpenPart {
    title: String,
    nodes: Vec<NavNode>,
}

impl View for OpenPart {
    type V = OpenPartView;

    closed spec fn view(&self) -> OpenPartView {
        OpenPartView { title: self.title@, nodes: node_views(self.nodes@) }
    }
}

spec fn open_views(s: Seq<OpenPart>) -> Seq<OpenPartView> {
    Seq::new(s.len(), |i: int| s[i]@)
}

impl NavTree {
    /// A tree without nodes.
    pub fn new() -> (tree: NavTree)
        ensures
            tree@ == Seq::<NavNodeView>::empty(),
    {
        let tree = NavTree { subnodes: Vec::new() };
        assert(tree@ =~= Seq::<NavNodeView>::empty());
        tree
    }

    /// Adds `node` at the end of the top level.
    pub fn push(&mut self, node: NavNode)
        ensures
            final(self)@ == old(self)@.push(node@),
    {
        proof {
            lemma_node_views_push(self.subnodes@, node);
        }
        self.subnodes.push(node);
    }

    /// Whether the top level, read as a stream of markers, is balanced.
    pub fn is_balanced(&self) -> (b: bool)
        ensures
            b == balanced(self@),
    {
        let ghost markers = self@;
        let mut depth: usize = 0;
        let mut i: usize = 0;
        while i < self.subnodes.len()
            invariant
                i <= self.subnodes.len(),
                markers == node_views(self.subnodes@),
                depth_after(markers, i as int) == Some(depth as nat),
                depth <= i,
            decreases self.subnodes.len() - i,
        {
            proof {
                reveal_with_fuel(node_views, 2);
                assert(markers[i as int] == self.subnodes@[i as int]@);
            }
            match &self.subnodes[i].heading {
                NavHeading::Heading(_) => {
                    depth += 1;
                },
                NavHeading::Chapter(_, _) => {},
                NavHeading::End => {
                    if depth == 0 {
                        proof {
                            lemma_depth_none(markers, i + 1, markers.len() as int);
                        }
                        return false;
                    }
                    depth -= 1;
                },
            }
            i += 1;
        }
        proof {
            reveal_with_fuel(node_views, 2);
            assert(markers.len() == self.subnodes.len());
        }
        depth == 0
    }
}

impl NavTree {
    /// Nests the top level, read as a flat stream of markers.
    ///
    /// Each heading gathers as its children what stands between it and the
    /// end that closes it; what it held before is dropped, and the ends
    /// themselves leave the tree. A stream whose groups do not match is
    /// refused and left as it is.
    pub fn treeify(&mut self) -> (r: Result<(), NavError>)
        ensures
            match r {
                Ok(()) => treeified(old(self)@) == Some(final(self)@),
                Err(e) => treeified(old(self)@) is None && *final(self) == *old(self),
            },
    {
        let ghost markers = self@;
        proof {
            lemma_treeified_iff_balanced(markers);
        }
        if !self.is_balanced() {
            return Err(NavError::UnmatchedGroups);
        }
        let mut untreed: Vec<NavNode> = Vec::new();
        core::mem::swap(&mut self.subnodes, &mut untreed);
        let mut root: Vec<NavNode> = Vec::new();
        let mut open: Vec<OpenPart> = Vec::new();
        assert(node_views(root@) =~= Seq::<NavNodeView>::empty());
        assert(open_views(open@) =~= Seq::<OpenPartView>::empty());
        for marker in it: untreed
            invariant
                it.seq() == untreed@,
                markers == node_views(untreed@),
                treeified(markers) is Some,
                assembly_prefix(markers, it.index() as int) == Some(
                    Assembly { root: node_views(root@), open: open_views(open@) },
                ),
        {
            let ghost n = it.index() as int;
            let ghost before = Assembly { root: node_views(root@), open: open_views(open@) };
            proof {
                reveal_with_fuel(node_views, 2);
                assert(markers[n] == marker@);
                assert(markers.len() == untreed@.len());
                if assembly_prefix(markers, n + 1) is None {
                    lemma_assembly_none(markers, n + 1, markers.len() as int);
                }
            }
            let node = match marker.heading {
                NavHeading::Heading(title) => {
                    let part = OpenPart { title, nodes: Vec::new() };
                    assert(node_views(part.nodes@) =~= Seq::<NavNodeView>::empty());
                    let ghost was = open_views(open@);
                    open.push(part);
                    assert(open_views(open@) =~= was.push(part@));
                    None
                },
                NavHeading::Chapter(title, path) => Some(
                    NavNode { heading: NavHeading::Chapter(title, path), children: marker.children },
                ),
                NavHeading::End => {
                    let ghost was = open_views(open@);
                    let top = open.pop().unwrap();
                    assert(open_views(open@) =~= was.drop_last());
                    assert(was.last() == top@);
                    Some(
                        NavNode {
                            heading: NavHeading::Heading(top.title),
                            children: Some(NavTree { subnodes: top.nodes }),
                        },
                    )
                },
            };
            match node {
                None => {},
                Some(node) => {
                    if open.len() == 0 {
                        proof {
                            lemma_node_views_push(root@, node);
                        }
                        root.push(node);
                    } else {
                        let ghost was = open_views(open@);
                        let mut top = open.pop().unwrap();
                        assert(was.last() == top@);
                        assert(open_views(open@) =~= was.drop_last());
                        proof {
                            lemma_node_views_push(top.nodes@, node);
                        }
                        top.nodes.push(node);
                        let ghost rest = open_views(open@);
                        open.push(top);
                        assert(open_views(open@) =~= rest.push(top@));
                    }
                },
            }
        }
        proof {
            reveal_with_fuel(node_views, 2);
            assert(markers.len() == untreed@.len());
        }
        self.subnodes = root;
        Ok(())
    }
}

/// Once an end has come with no part open, no later marker mends it.
pub proof fn lemma_assembly_none(markers: Seq<NavNodeView>, first: int, n: int)
    requires
        0 < first <= n,
        assembly_prefix(markers, first) is None,
    ensures
        assembly_prefix(markers, n) is None,
    decreases n - first,
{
    if first < n {
        lemma_assembly_none(markers, first, n - 1);
    }
}

/// Once an end has come with no part open, the rest of the stream changes
/// nothing.
pub proof fn lemma_depth_none(markers: Seq<NavNodeView>, first: int, n: int)
    requires
        0 < first <= n,
        depth_after(markers, first) is None,
    ensures
        depth_after(markers, n) is None,
    decreases n - first,
{
    if first < n {
        lemma_depth_none(markers, first, n - 1);
    }
}


/// The list item of one node: its label, then the list of its children; an
/// end marker gives nothing.
pub open spec fn ol_entry(node: NavNodeView) -> Seq<XmlOutView>
    decreases node, 0int,
{
    match node.heading {
        NavHeadingView::End => Seq::empty(),
        heading => seq![start("li"@, Seq::empty())] + (match heading {
            NavHeadingView::Chapter(title, path) => wrapped(
                "a"@,
                seq![("href"@, path)],
                seq![XmlOutView::Characters(title)],
            ),
            NavHeadingView::Heading(title) => wrapped(
                "span"@,
                Seq::empty(),
                seq![XmlOutView::Characters(title)],
            ),
            NavHeadingView::End => Seq::empty(),
        }) + (match node.children {
            Some(children) => ol_events(children),
            None => Seq::empty(),
        }) + seq![XmlOutView::EndElement],
    }
}

/// The list items of the first `n` of `nodes`.
pub open spec fn ol_entries(nodes: Seq<NavNodeView>, n: int) -> Seq<XmlOutView>
    decreases nodes, n,
{
    if n <= 0 || n > nodes.len() {
        Seq::empty()
    } else {
        ol_entries(nodes, n - 1) + ol_entry(nodes[n - 1])
    }
}

/// The ordered list that shows a tree; nothing for a tree of fewer than two
/// nodes.
pub open spec fn ol_events(nodes: Seq<NavNodeView>) -> Seq<XmlOutView>
    decreases nodes, nodes.len() + 1,
{
    if nodes.len() < 2 {
        Seq::empty()
    } else {
        wrapped("ol"@, Seq::empty(), ol_entries(nodes, nodes.len() as int))
    }
}

fn ol_of(nodes: &Vec<NavNode>) -> (out: Vec<XmlOut>)
    ensures
        out_views(out@) == ol_events(node_views(nodes@)),
    decreases nodes,
{
    let ghost views = node_views(nodes@);
    let mut out: Vec<XmlOut> = Vec::new();
    assert(out_views(out@) =~= Seq::<XmlOutView>::empty());
    proof {
        reveal_with_fuel(node_views, 2);
        assert(views.len() == nodes.len());
    }
    if nodes.len() < 2 {
        return out;
    }
    assert(crate::text::pair_views(Seq::<(String, String)>::empty()) =~= Seq::<
        (Seq<char>, Seq<char>),
    >::empty());
    emit_start(&mut out, "ol", Vec::new());
    let ghost open = seq![start("ol"@, Seq::empty())];
    assert(out_views(out@) =~= open + ol_entries(views, 0));
    let mut i: usize = 0;
    while i < nodes.len()
        invariant
            i <= nodes.len(),
            views == node_views(nodes@),
            views.len() == nodes.len(),
            out_views(out@) == open + ol_entries(views, i as int),
        decreases nodes.len() - i,
    {
        let node = &nodes[i];
        let ghost was = out_views(out@);
        proof {
            reveal_with_fuel(node_views, 2);
            assert(views[i as int] == node@);
            assert(crate::text::pair_views(Seq::<(String, String)>::empty()) =~= Seq::<
                (Seq<char>, Seq<char>),
            >::empty());
        }
        match &node.heading {
            NavHeading::End => {
                assert(out_views(out@) =~= was + ol_entry(node@));
            },
            heading => {
                emit_start(&mut out, "li", Vec::new());
                match heading {
                    NavHeading::Chapter(title, path) => {
                        emit_start(&mut out, "a", one_attr("href", path.as_str()));
                        emit_text(&mut out, title.as_str());
                        emit_end(&mut out);
                    },
                    NavHeading::Heading(head) => {
                        emit_start(&mut out, "span", Vec::new());
                        emit_text(&mut out, head.as_str());
                        emit_end(&mut out);
                    },
                    NavHeading::End => {},
                }
                match &node.children {
                    Some(children) => {
                        let inner = ol_of(&children.subnodes);
                        append_events(&mut out, inner);
                    },
                    None => {},
                }
                emit_end(&mut out);
                assert(out_views(out@) =~= was + ol_entry(node@));
            },
        }
        i += 1;
    }
    emit_end(&mut out);
    assert(out_views(out@) =~= ol_events(views));
    out
}

impl NavTree {
    /// Adds to `out` the ordered list that shows the tree. A tree of fewer
    /// than two nodes adds nothing.
    pub fn write_ol(&self, out: &mut Vec<XmlOut>)
        ensures
            out_views(final(out)@) == out_views(old(out)@) + ol_events(self@),
    {
        let list = ol_of(&self.subnodes);
        append_events(out, list);
    }
}


/// The marker that opens a part.
pub open spec fn opening(title: Seq<char>) -> NavNodeView {
    NavNodeView { heading: NavHeadingView::Heading(title), children: None }
}

/// The marker that closes a part.
pub open spec fn closing() -> NavNodeView {
    NavNodeView { heading: NavHeadingView::End, children: None }
}

/// A marker as [`NavTree::treeify`] reads it: what a heading or an end
/// holds beside its kind plays no part.
pub open spec fn read_as(marker: NavNodeView) -> NavNodeView {
    match marker.heading {
        NavHeadingView::Heading(title) => opening(title),
        NavHeadingView::End => closing(),
        NavHeadingView::Chapter(_, _) => marker,
    }
}

/// Each marker of `markers` as it is read.
pub open spec fn all_read_as(markers: Seq<NavNodeView>) -> Seq<NavNodeView> {
    Seq::new(markers.len(), |i: int| read_as(markers[i]))
}

/// The stream of markers that a node stands for: a part is its opening, the
/// markers of its children and a closing; any other node is its own marker.
pub open spec fn node_markers(node: NavNodeView) -> Seq<NavNodeView>
    decreases node, 0int,
{
    match node.heading {
        NavHeadingView::Heading(title) => seq![opening(title)] + (match node.children {
            Some(children) => tree_markers(children, children.len() as int),
            None => Seq::empty(),
        }) + seq![closing()],
        _ => seq![node],
    }
}

/// The stream of markers that the first `n` of `nodes` stand for.
pub open spec fn tree_markers(nodes: Seq<NavNodeView>, n: int) -> Seq<NavNodeView>
    decreases nodes, n,
{
    if n <= 0 || n > nodes.len() {
        Seq::empty()
    } else {
        tree_markers(nodes, n - 1) + node_markers(nodes[n - 1])
    }
}

/// A node added at the end leaves the markers of the nodes before it as they
/// are.
proof fn lemma_tree_markers_keep(nodes: Seq<NavNodeView>, node: NavNodeView, n: int)
    requires
        0 <= n <= nodes.len(),
    ensures
        tree_markers(nodes.push(node), n) == tree_markers(nodes, n),
    decreases n,
{
    if n > 0 {
        lemma_tree_markers_keep(nodes, node, n - 1);
        assert(nodes.push(node)[n - 1] == nodes[n - 1]);
    }
}

/// The markers of a tree that has one more node are those of the tree, then
/// those of the node.
proof fn lemma_tree_markers_push(nodes: Seq<NavNodeView>, node: NavNodeView)
    ensures
        tree_markers(nodes.push(node), nodes.len() as int + 1) == tree_markers(
            nodes,
            nodes.len() as int,
        ) + node_markers(node),
{
    lemma_tree_markers_keep(nodes, node, nodes.len() as int);
    assert(nodes.push(node)[nodes.len() as int] == node);
}

/// The markers that the first `n` open parts stand for so far: for each its
/// opening and the markers of what it has gathered.
pub open spec fn open_markers(open: Seq<OpenPartView>, n: int) -> Seq<NavNodeView>
    decreases n,
{
    if n <= 0 || n > open.len() {
        Seq::empty()
    } else {
        open_markers(open, n - 1) + seq![opening(open[n - 1].title)] + tree_markers(
            open[n - 1].nodes,
            open[n - 1].nodes.len() as int,
        )
    }
}

/// The markers that an assembly has taken in.
pub open spec fn assembly_markers(a: Assembly) -> Seq<NavNodeView> {
    tree_markers(a.root, a.root.len() as int) + open_markers(a.open, a.open.len() as int)
}

proof fn lemma_open_markers_prefix(open: Seq<OpenPartView>, other: Seq<OpenPartView>, n: int)
    requires
        0 <= n <= open.len(),
        n <= other.len(),
        forall|i: int| 0 <= i < n ==> open[i] == other[i],
    ensures
        open_markers(open, n) == open_markers(other, n),
    decreases n,
{
    if n > 0 {
        lemma_open_markers_prefix(open, other, n - 1);
    }
}

/// Placing a node adds its markers at the end.
proof fn lemma_placed_markers(a: Assembly, node: NavNodeView)
    ensures
        assembly_markers(placed(a, node)) == assembly_markers(a) + node_markers(node),
{
    if a.open.len() == 0 {
        lemma_tree_markers_push(a.root, node);
        assert(assembly_markers(placed(a, node)) =~= assembly_markers(a) + node_markers(node));
    } else {
        let top = a.open.last();
        let n = a.open.len() - 1;
        let after = placed(a, node).open;
        lemma_tree_markers_push(top.nodes, node);
        lemma_open_markers_prefix(a.open, after, n);
        assert(after[n] == OpenPartView { nodes: top.nodes.push(node), ..top });
        assert(open_markers(after, n + 1) =~= open_markers(a.open, n + 1) + node_markers(node));
        assert(assembly_markers(placed(a, node)) =~= assembly_markers(a) + node_markers(node));
    }
}

/// One step of the assembler takes in one marker as it is read.
proof fn lemma_step_markers(a: Assembly, marker: NavNodeView)
    requires
        assembly_step(a, marker) is Some,
    ensures
        assembly_markers(assembly_step(a, marker)->0) == assembly_markers(a).push(
            read_as(marker),
        ),
{
    let next = assembly_step(a, marker)->0;
    match marker.heading {
        NavHeadingView::Heading(title) => {
            let n = a.open.len() as int;
            lemma_open_markers_prefix(a.open, next.open, n);
            assert(next.open[n].nodes.len() == 0);
            assert(assembly_markers(next) =~= assembly_markers(a).push(opening(title)));
        },
        NavHeadingView::Chapter(_, _) => {
            lemma_placed_markers(a, marker);
            assert(assembly_markers(next) =~= assembly_markers(a).push(marker));
        },
        NavHeadingView::End => {
            let top = a.open.last();
            let n = a.open.len() - 1;
            let below = Assembly { open: a.open.drop_last(), ..a };
            let node = NavNodeView {
                heading: NavHeadingView::Heading(top.title),
                children: Some(top.nodes),
            };
            lemma_placed_markers(below, node);
            lemma_open_markers_prefix(a.open, below.open, n);
            assert(assembly_markers(a) =~= assembly_markers(below) + seq![opening(top.title)]
                + tree_markers(top.nodes, top.nodes.len() as int));
            assert(assembly_markers(next) =~= assembly_markers(a).push(closing()));
        },
    }
}

proof fn lemma_prefix_markers(markers: Seq<NavNodeView>, n: int)
    requires
        0 <= n <= markers.len(),
        assembly_prefix(markers, n) is Some,
    ensures
        assembly_markers(assembly_prefix(markers, n)->0) == all_read_as(markers).take(n),
    decreases n,
{
    if n > 0 {
        lemma_prefix_markers(markers, n - 1);
        let before = assembly_prefix(markers, n - 1)->0;
        lemma_step_markers(before, markers[n - 1]);
        assert(all_read_as(markers).take(n) =~= all_read_as(markers).take(n - 1).push(
            read_as(markers[n - 1]),
        ));
    } else {
        assert(assembly_markers(assembly_prefix(markers, 0)->0) =~= all_read_as(markers).take(0));
    }
}

/// Nesting loses nothing and adds nothing: read front to back, each part
/// before its children and closed after them, the tree gives back the
/// stream of markers it was made of.
pub proof fn lemma_treeified_gives_back_markers(markers: Seq<NavNodeView>)
    requires
        treeified(markers) is Some,
    ensures
        tree_markers(treeified(markers)->0, treeified(markers)->0.len() as int) == all_read_as(
            markers,
        ),
{
    lemma_prefix_markers(markers, markers.len() as int);
    let a = assembly_prefix(markers, markers.len() as int)->0;
    assert(all_read_as(markers).take(markers.len() as int) =~= all_read_as(markers));
    assert(assembly_markers(a) =~= tree_markers(a.root, a.root.len() as int));
}


/// Whether a node is nested: it is no end marker, and a part has children,
/// all of them nested.
pub open spec fn is_nested(node: NavNodeView) -> bool
    decreases node, 0int,
{
    match node.heading {
        NavHeadingView::End => false,
        NavHeadingView::Heading(_) => node.children matches Some(children) && all_nested(
            children,
        ),
        NavHeadingView::Chapter(_, _) => true,
    }
}

/// Whether every node of `nodes` is nested.
pub open spec fn all_nested(nodes: Seq<NavNodeView>) -> bool
    decreases nodes, 1int,
{
    forall|i: int| 0 <= i < nodes.len() ==> is_nested(#[trigger] nodes[i])
}

/// Whether everything that an assembly holds is nested.
pub open spec fn assembly_nested(a: Assembly) -> bool {
    all_nested(a.root) && forall|i: int|
        0 <= i < a.open.len() ==> all_nested((#[trigger] a.open[i]).nodes)
}

proof fn lemma_push_nested(nodes: Seq<NavNodeView>, node: NavNodeView)
    requires
        all_nested(nodes),
        is_nested(node),
    ensures
        all_nested(nodes.push(node)),
{
    assert forall|i: int| 0 <= i < nodes.push(node).len() implies is_nested(
        #[trigger] nodes.push(node)[i],
    ) by {
        if i < nodes.len() {
            assert(nodes.push(node)[i] == nodes[i]);
        }
    }
}

proof fn lemma_placed_nested(a: Assembly, node: NavNodeView)
    requires
        assembly_nested(a),
        is_nested(node),
    ensures
        assembly_nested(placed(a, node)),
{
    if a.open.len() == 0 {
        lemma_push_nested(a.root, node);
    } else {
        let top = a.open.last();
        lemma_push_nested(top.nodes, node);
        let after = placed(a, node);
        assert forall|i: int| 0 <= i < after.open.len() implies all_nested(
            (#[trigger] after.open[i]).nodes,
        ) by {
            if i < a.open.len() - 1 {
                assert(after.open[i] == a.open[i]);
            }
        }
    }
}

proof fn lemma_prefix_nested(markers: Seq<NavNodeView>, n: int)
    requires
        0 <= n <= markers.len(),
        assembly_prefix(markers, n) is Some,
    ensures
        assembly_nested(assembly_prefix(markers, n)->0),
    decreases n,
{
    if n > 0 {
        lemma_prefix_nested(markers, n - 1);
        let before = assembly_prefix(markers, n - 1)->0;
        let marker = markers[n - 1];
        let after = assembly_prefix(markers, n)->0;
        match marker.heading {
            NavHeadingView::Heading(title) => {
                assert forall|i: int| 0 <= i < after.open.len() implies all_nested(
                    (#[trigger] after.open[i]).nodes,
                ) by {
                    if i < before.open.len() {
                        assert(after.open[i] == before.open[i]);
                    }
                }
            },
            NavHeadingView::Chapter(_, _) => {
                lemma_placed_nested(before, marker);
            },
            NavHeadingView::End => {
                let top = before.open.last();
                let below = Assembly { open: before.open.drop_last(), ..before };
                assert forall|i: int| 0 <= i < below.open.len() implies all_nested(
                    (#[trigger] below.open[i]).nodes,
                ) by {
                    assert(below.open[i] == before.open[i]);
                }
                lemma_placed_nested(
                    below,
                    NavNodeView {
                        heading: NavHeadingView::Heading(top.title),
                        children: Some(top.nodes),
                    },
                );
            },
        }
    }
}

/// The tree that a stream of markers makes holds no end marker at any depth
/// that the stream has made, and each of its parts has children.
pub proof fn lemma_treeified_is_nested(markers: Seq<NavNodeView>)
    requires
        treeified(markers) is Some,
    ensures
        all_nested(treeified(markers)->0),
{
    lemma_prefix_nested(markers, markers.len() as int);
}


impl NavError {
    /// What the error says.
    pub fn to_string(&self) -> (text: String)
        ensures
            text@ == "unmatched begin/end groups"@,
    {
        String::from_str("unmatched begin/end groups")
    }
}


fn clone_nodes(nodes: &Vec<NavNode>) -> (copy: Vec<NavNode>)
    ensures
        node_views(copy@) == node_views(nodes@),
    decreases nodes, 1int,
{
    let mut copy: Vec<NavNode> = Vec::new();
    let mut i: usize = 0;
    while i < nodes.len()
        invariant
            i <= nodes.len(),
            copy@.len() == i,
            forall|j: int| 0 <= j < i ==> copy@[j]@ == nodes@[j]@,
        decreases nodes.len() - i,
    {
        copy.push(nodes[i].clone());
        i += 1;
    }
    proof {
        reveal_with_fuel(node_views, 2);
        assert(node_views(copy@) =~= node_views(nodes@));
    }
    copy
}

impl Clone for NavNode {
    fn clone(&self) -> (copy: NavNode)
        ensures
            copy@ == self@,
        decreases self, 0int,
    {
        NavNode {
            heading: match &self.heading {
                NavHeading::Chapter(title, path) => NavHeading::Chapter(
                    title.clone(),
                    path.clone(),
                ),
                NavHeading::Heading(title) => NavHeading::Heading(title.clone()),
                NavHeading::End => NavHeading::End,
            },
            children: match &self.children {
                Some(tree) => Some(NavTree { subnodes: clone_nodes(&tree.subnodes) }),
                None => None,
            },
        }
    }
}

impl Clone for NavTree {
    fn clone(&self) -> (copy: NavTree)
        ensures
            copy@ == self@,
    {
        NavTree { subnodes: clone_nodes(&self.subnodes) }
    }
}

} // verus!
