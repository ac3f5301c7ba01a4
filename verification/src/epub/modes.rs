//! The two ways to a navigation tree agree.
//!
//! A book can be nested from its items, part titles and separators, or from
//! a stream of markers that opens and closes each part. This module writes a
//! sequence of items down as such a stream and shows that both ways give the
//! same nesting.

use super::nav::{
    assembly_prefix, assembly_step, closing, opening, placed, treeified, Assembly, NavHeadingView,
    NavNodeView, OpenPartView,
};
use crate::bookir::nav::{group_prefix, group_step, grouped, part_node, Grouping, NavEntryView};
use vstd::prelude::*;

verus! {

/// A node of a book.
pub type BookNode = crate::bookir::nav::NavNodeView;

/// The marker of a chapter: its title and where it is rendered to. A draft
/// is rendered nowhere.
pub open spec fn leaf(node: BookNode) -> NavNodeView {
    NavNodeView {
        heading: match node.heading {
            crate::bookir::nav::NavHeadingView::Chapter(title, chapter) => NavHeadingView::Chapter(
                title,
                chapter.destination_path,
            ),
            crate::bookir::nav::NavHeadingView::UnboundChapter(title) => NavHeadingView::Chapter(
                title,
                Seq::empty(),
            ),
            crate::bookir::nav::NavHeadingView::Heading(title) => NavHeadingView::Chapter(
                title,
                Seq::empty(),
            ),
        },
        children: None,
    }
}

/// The markers of the chapters `nodes`.
pub open spec fn leaves(nodes: Seq<BookNode>) -> Seq<NavNodeView> {
    Seq::new(nodes.len(), |i: int| leaf(nodes[i]))
}

/// A node of the top level of a book as a node of a tree of markers: a part
/// with the markers of its chapters, or the marker of a chapter.
pub open spec fn as_marked(node: BookNode) -> NavNodeView {
    match node.heading {
        crate::bookir::nav::NavHeadingView::Heading(title) => NavNodeView {
            heading: NavHeadingView::Heading(title),
            children: Some(
                leaves(
                    match node.children {
                        Some(children) => children,
                        None => Seq::empty(),
                    },
                ),
            ),
        },
        _ => leaf(node),
    }
}

/// The top level of a book as a tree of markers.
pub open spec fn all_marked(nodes: Seq<BookNode>) -> Seq<NavNodeView> {
    Seq::new(nodes.len(), |i: int| as_marked(nodes[i]))
}

/// Whether every chapter among `entries` is headed as a chapter.
pub open spec fn holds_chapters(entries: Seq<NavEntryView>) -> bool {
    forall|i: int|
        0 <= i < entries.len() ==> (#[trigger] entries[i] matches NavEntryView::Node(node)
            ==> !(node.heading is Heading))
}

/// The markers that stand for the first `n` of `entries`, and whether a part
/// is open after them. A part title closes the part that is open and opens
/// its own; a separator closes the part that is open.
pub open spec fn stream_prefix(entries: Seq<NavEntryView>, n: int) -> (Seq<NavNodeView>, bool)
    decreases n,
{
    if n <= 0 {
        (Seq::empty(), false)
    } else {
        let (markers, open) = stream_prefix(entries, n - 1);
        let closed = if open {
            markers.push(closing())
        } else {
            markers
        };
        match entries[n - 1] {
            NavEntryView::Node(node) => (markers.push(leaf(node)), open),
            NavEntryView::PartTitle(title) => (closed.push(opening(title)), true),
            NavEntryView::Separator => (closed, false),
        }
    }
}

/// The stream of markers that stands for `entries`. A part that is open at
/// the end is closed.
pub open spec fn stream_of(entries: Seq<NavEntryView>) -> Seq<NavNodeView> {
    let (markers, open) = stream_prefix(entries, entries.len() as int);
    if open {
        markers.push(closing())
    } else {
        markers
    }
}

/// The assembler reads a stream marker by marker.
proof fn lemma_assembly_push(markers: Seq<NavNodeView>, marker: NavNodeView, n: int)
    requires
        0 <= n <= markers.len(),
    ensures
        assembly_prefix(markers.push(marker), n) == assembly_prefix(markers, n),
        n == markers.len() ==> assembly_prefix(markers.push(marker), n + 1) == (
        match assembly_prefix(markers, n) {
            Some(a) => assembly_step(a, marker),
            None => None,
        }),
    decreases n,
{
    if n > 0 {
        lemma_assembly_push(markers, marker, n - 1);
        assert(markers.push(marker)[n - 1] == markers[n - 1]);
    }
    if n == markers.len() {
        assert(markers.push(marker)[n] == marker);
    }
}

/// Whether the assembler, after the markers of some entries, holds what the
/// grouping of those entries holds.
pub open spec fn agree(a: Assembly, g: Grouping) -> bool {
    match g.title {
        Some(title) => a.root == all_marked(g.done) && a.open == seq![
            OpenPartView { title, nodes: leaves(g.current) },
        ],
        None => a.root == all_marked(g.done) + leaves(g.current) && a.open.len() == 0,
    }
}

/// Whether every node of `nodes` is headed as a chapter.
pub open spec fn are_chapters(nodes: Seq<BookNode>) -> bool {
    forall|i: int| 0 <= i < nodes.len() ==> !((#[trigger] nodes[i]).heading is Heading)
}

proof fn lemma_chapters_marked(done: Seq<BookNode>, current: Seq<BookNode>)
    requires
        are_chapters(current),
    ensures
        all_marked(done + current) == all_marked(done) + leaves(current),
{
    assert forall|i: int| 0 <= i < (done + current).len() implies all_marked(done + current)[i]
        == (all_marked(done) + leaves(current))[i] by {
        if i >= done.len() {
            assert((done + current)[i] == current[i - done.len()]);
        } else {
            assert((done + current)[i] == done[i]);
        }
    }
    assert(all_marked(done + current) =~= all_marked(done) + leaves(current));
}

proof fn lemma_close_part(a: Assembly, g: Grouping, title: Seq<char>)
    requires
        agree(a, g),
        g.title == Some(title),
    ensures
        assembly_step(a, closing()) matches Some(next) && next.open.len() == 0 && next.root
            == all_marked(g.done.push(part_node(title, g.current))),
{
    let next = assembly_step(a, closing())->0;
    assert(a.open.last() == OpenPartView { title, nodes: leaves(g.current) });
    assert(a.open.drop_last() =~= Seq::<OpenPartView>::empty());
    assert(next.root =~= all_marked(g.done.push(part_node(title, g.current))));
}

proof fn lemma_streams_agree(entries: Seq<NavEntryView>, n: int)
    requires
        0 <= n <= entries.len(),
        holds_chapters(entries),
    ensures
        ({
            let (markers, open) = stream_prefix(entries, n);
            let g = group_prefix(entries, n);
            &&& open == (g.title is Some)
            &&& are_chapters(g.current)
            &&& assembly_prefix(markers, markers.len() as int) matches Some(a) && agree(a, g)
        }),
    decreases n,
{
    if n > 0 {
        lemma_streams_agree(entries, n - 1);
        let (markers, open) = stream_prefix(entries, n - 1);
        let g = group_prefix(entries, n - 1);
        let a = assembly_prefix(markers, markers.len() as int)->0;
        let after = group_step(g, entries[n - 1]);
        let closed = if open {
            markers.push(closing())
        } else {
            markers
        };
        let shut = if open {
            assembly_step(a, closing())->0
        } else {
            a
        };
        if open {
            lemma_assembly_push(markers, closing(), markers.len() as int);
            lemma_close_part(a, g, g.title->0);
        }
        match entries[n - 1] {
            NavEntryView::Node(node) => {
                lemma_assembly_push(markers, leaf(node), markers.len() as int);
                let next = placed(a, leaf(node));
                assert(after.current == g.current.push(node));
                assert(leaves(g.current.push(node)) =~= leaves(g.current).push(leaf(node)));
                assert forall|i: int| 0 <= i < after.current.len() implies !((
                #[trigger] after.current[i]).heading is Heading) by {
                    if i < g.current.len() {
                        assert(after.current[i] == g.current[i]);
                    }
                }
                if open {
                    assert(next.open =~= seq![
                        OpenPartView { title: g.title->0, nodes: leaves(after.current) },
                    ]);
                } else {
                    assert(next.root =~= all_marked(g.done) + leaves(after.current));
                }
            },
            NavEntryView::PartTitle(title) => {
                lemma_assembly_push(closed, opening(title), closed.len() as int);
                let next = assembly_step(shut, opening(title))->0;
                assert(leaves(Seq::<BookNode>::empty()) =~= Seq::<NavNodeView>::empty());
                if !open {
                    lemma_chapters_marked(g.done, g.current);
                }
                assert(next.open =~= seq![OpenPartView { title, nodes: leaves(after.current) }]);
            },
            NavEntryView::Separator => {
                assert(leaves(Seq::<BookNode>::empty()) =~= Seq::<NavNodeView>::empty());
                if open {
                    assert(shut.root =~= all_marked(after.done) + leaves(after.current));
                }
            },
        }
    } else {
        let g = group_prefix(entries, 0);
        assert(all_marked(g.done) + leaves(g.current) =~= Seq::<NavNodeView>::empty());
    }
}

/// Both ways give the same nesting: the tree that is grouped from the items
/// of a book is the tree that is nested from the stream of markers that
/// stands for those items.
pub proof fn lemma_modes_agree(entries: Seq<NavEntryView>)
    requires
        holds_chapters(entries),
    ensures
        treeified(stream_of(entries)) == Some(all_marked(grouped(entries))),
{
    lemma_streams_agree(entries, entries.len() as int);
    let (markers, open) = stream_prefix(entries, entries.len() as int);
    let g = group_prefix(entries, entries.len() as int);
    let a = assembly_prefix(markers, markers.len() as int)->0;
    if open {
        lemma_assembly_push(markers, closing(), markers.len() as int);
        lemma_close_part(a, g, g.title->0);
    } else {
        lemma_chapters_marked(g.done, g.current);
    }
}

} // verus!
