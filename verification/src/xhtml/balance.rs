//! What is written for rich text is well nested: every element that is
//! opened is closed, and nothing is closed that is not open.

use super::{
    all_events, alt_text, chapter_events, ends, image_events, items_events, link_events,
    node_events, nodes_events, start, starts, style_names, wrapped, XmlOutView,
};
use crate::bookir::{InlineXhtmlView, LinkView, RichTextView};
use crate::text::Pairs;
use vstd::prelude::*;

verus! {

/// By how much an event changes the number of open elements.
pub open spec fn step(event: XmlOutView) -> int {
    match event {
        XmlOutView::StartElement { .. } => 1,
        XmlOutView::EndElement => -1,
        XmlOutView::EndNamed(_) => -1,
        _ => 0,
    }
}

/// The number of elements that are open after the first `n` of `events`.
pub open spec fn depth(events: Seq<XmlOutView>, n: int) -> int
    decreases n,
{
    if n <= 0 {
        0
    } else {
        depth(events, n - 1) + step(events[n - 1])
    }
}

/// Whether `events` are well nested: no event closes an element where none
/// is open, and no element is left open.
pub open spec fn balanced(events: Seq<XmlOutView>) -> bool {
    depth(events, events.len() as int) == 0 && forall|n: int|
        0 <= n <= events.len() ==> #[trigger] depth(events, n) >= 0
}

proof fn lemma_depth_add(a: Seq<XmlOutView>, b: Seq<XmlOutView>, n: int)
    requires
        0 <= n <= a.len() + b.len(),
    ensures
        depth(a + b, n) == if n <= a.len() {
            depth(a, n)
        } else {
            depth(a, a.len() as int) + depth(b, n - a.len())
        },
    decreases n,
{
    if n > 0 {
        lemma_depth_add(a, b, n - 1);
        if n <= a.len() {
            assert((a + b)[n - 1] == a[n - 1]);
        } else {
            assert((a + b)[n - 1] == b[n - 1 - a.len()]);
            assert(depth(b, 0) == 0);
            assert(depth(b, n - a.len()) == depth(b, n - a.len() - 1) + step(b[n - a.len() - 1]));
        }
    }
}

/// Well nested events after well nested events are well nested.
pub proof fn lemma_balanced_add(a: Seq<XmlOutView>, b: Seq<XmlOutView>)
    requires
        balanced(a),
        balanced(b),
    ensures
        balanced(a + b),
{
    assert forall|n: int| 0 <= n <= (a + b).len() implies #[trigger] depth(a + b, n) >= 0 by {
        lemma_depth_add(a, b, n);
        if n > a.len() {
            assert(depth(b, n - a.len()) >= 0);
        } else {
            assert(depth(a, n) >= 0);
        }
    }
    lemma_depth_add(a, b, (a + b).len() as int);
    assert(depth(b, b.len() as int) == 0);
}

/// An element around well nested events is well nested.
pub proof fn lemma_balanced_wrapped(name: Seq<char>, attrs: Pairs, inner: Seq<XmlOutView>)
    requires
        balanced(inner),
    ensures
        balanced(wrapped(name, attrs, inner)),
{
    let open = seq![start(name, attrs)];
    let close = seq![XmlOutView::EndElement];
    let all = wrapped(name, attrs, inner);
    assert(depth(open, 1) == depth(open, 0) + step(open[0]));
    assert(depth(close, 1) == depth(close, 0) + step(close[0]));
    assert forall|n: int| 0 <= n <= all.len() implies #[trigger] depth(all, n) >= 0 by {
        lemma_depth_add(open + inner, close, n);
        if n <= (open + inner).len() {
            lemma_depth_add(open, inner, n);
            if n > 1 {
                assert(depth(inner, n - 1) >= 0);
            } else if n == 1 {
            }
        } else {
            lemma_depth_add(open, inner, (open + inner).len() as int);
        }
    }
    lemma_depth_add(open + inner, close, all.len() as int);
    lemma_depth_add(open, inner, (open + inner).len() as int);
    assert(depth(inner, inner.len() as int) == 0);
}

/// No events are well nested.
pub proof fn lemma_balanced_empty()
    ensures
        balanced(Seq::<XmlOutView>::empty()),
{
}

/// One event that opens and closes nothing is well nested.
proof fn lemma_balanced_flat(event: XmlOutView)
    requires
        step(event) == 0,
    ensures
        balanced(seq![event]),
{
    let s = seq![event];
    assert(depth(s, 1) == depth(s, 0) + step(s[0]));
    assert forall|n: int| 0 <= n <= s.len() implies #[trigger] depth(s, n) >= 0 by {
        if n == 1 {
        }
    }
}

/// Opening tags around well nested events, closed as often as opened, are
/// well nested.
proof fn lemma_balanced_styled(names: Seq<Seq<char>>, inner: Seq<XmlOutView>)
    requires
        balanced(inner),
    ensures
        balanced(starts(names) + inner + ends(names.len())),
    decreases names.len(),
{
    if names.len() == 0 {
        assert(starts(names) + inner + ends(names.len()) =~= inner);
    } else {
        let rest = names.drop_first();
        lemma_balanced_styled(rest, inner);
        let body = starts(rest) + inner + ends(rest.len());
        lemma_balanced_wrapped(names[0], Seq::empty(), body);
        assert(starts(names) + inner + ends(names.len()) =~= wrapped(
            names[0],
            Seq::empty(),
            body,
        ));
    }
}

proof fn lemma_nodes_balanced(nodes: Seq<RichTextView>, n: int)
    ensures
        nodes_events(nodes, n) matches Ok(events) ==> balanced(events),
    decreases nodes, n,
{
    if n <= 0 || n > nodes.len() {
    } else {
        lemma_nodes_balanced(nodes, n - 1);
        lemma_node_balanced(nodes[n - 1]);
        match (nodes_events(nodes, n - 1), node_events(nodes[n - 1])) {
            (Ok(events), Ok(more)) => {
                lemma_balanced_add(events, more);
            },
            _ => {},
        }
    }
}

proof fn lemma_all_balanced(nodes: Seq<RichTextView>)
    ensures
        all_events(nodes) matches Ok(events) ==> balanced(events),
    decreases nodes, nodes.len() + 1,
{
    lemma_nodes_balanced(nodes, nodes.len() as int);
}

proof fn lemma_items_balanced(items: Seq<Seq<RichTextView>>, n: int)
    ensures
        items_events(items, n) matches Ok(events) ==> balanced(events),
    decreases items, n,
{
    if n <= 0 || n > items.len() {
    } else {
        lemma_items_balanced(items, n - 1);
        lemma_all_balanced(items[n - 1]);
        match (items_events(items, n - 1), all_events(items[n - 1])) {
            (Ok(events), Ok(inner)) => {
                lemma_balanced_wrapped("li"@, Seq::empty(), inner);
                lemma_balanced_add(events, wrapped("li"@, Seq::empty(), inner));
            },
            _ => {},
        }
    }
}

proof fn lemma_link_balanced(link: LinkView, internal: bool)
    ensures
        link_events(link, internal) matches Ok(events) ==> balanced(events),
        image_events(link) matches Ok(events) ==> balanced(events),
    decreases link, 0int,
{
    match link {
        LinkView::Text { children, destination, .. } => {
            lemma_all_balanced(children);
            match all_events(children) {
                Ok(inner) => {
                    lemma_balanced_wrapped(
                        "a"@,
                        seq![
                            (
                                "href"@,
                                if internal {
                                    super::chapter_href(destination)
                                } else {
                                    destination
                                },
                            ),
                        ],
                        inner,
                    );
                    match alt_text(children, children.len() as int) {
                        Ok(alt) => {
                            lemma_balanced_wrapped(
                                "img"@,
                                seq![("src"@, destination), ("alt"@, alt)],
                                inner,
                            );
                        },
                        Err(_) => {},
                    }
                },
                Err(_) => {},
            }
        },
        LinkView::Footnote(_) => {},
    }
}

/// What is written for a node of rich text is well nested.
pub proof fn lemma_node_balanced(node: RichTextView)
    ensures
        node_events(node) matches Ok(events) ==> balanced(events),
    decreases node, 0int,
{
    lemma_balanced_empty();
    match node {
        RichTextView::RawText(text) => {
            lemma_balanced_flat(XmlOutView::Characters(text));
        },
        RichTextView::Xhtml(InlineXhtmlView::CData(text)) => {
            lemma_balanced_flat(XmlOutView::CData(text));
        },
        RichTextView::Xhtml(InlineXhtmlView::Comment(text)) => {
            lemma_balanced_flat(XmlOutView::Comment(text));
        },
        RichTextView::Xhtml(InlineXhtmlView::Node(elem, Some(children))) => {
            lemma_all_balanced(children);
            match all_events(children) {
                Ok(inner) => {
                    lemma_balanced_wrapped(elem.name, elem.attrs, inner);
                },
                Err(_) => {},
            }
        },
        RichTextView::Xhtml(InlineXhtmlView::Node(elem, None)) => {
            lemma_balanced_wrapped(elem.name, elem.attrs, Seq::empty());
        },
        RichTextView::Stylised(style, children) => {
            lemma_all_balanced(children);
            match all_events(children) {
                Ok(inner) => {
                    lemma_balanced_styled(style_names(style), inner);
                },
                Err(_) => {},
            }
        },
        RichTextView::Paragraph(children) => {
            lemma_all_balanced(children);
            match all_events(children) {
                Ok(inner) => {
                    lemma_balanced_wrapped("p"@, Seq::empty(), inner);
                },
                Err(_) => {},
            }
        },
        RichTextView::InlineCode(code) => {
            lemma_balanced_flat(XmlOutView::CData(code));
            lemma_balanced_wrapped("code"@, Seq::empty(), seq![XmlOutView::CData(code)]);
        },
        RichTextView::CodeBlock { content, .. } => {
            lemma_balanced_flat(XmlOutView::CData(content));
            lemma_balanced_wrapped(
                "div"@,
                seq![("style"@, "font-family:monospace;background-color: #c9c9c9;"@)],
                seq![XmlOutView::CData(content)],
            );
        },
        RichTextView::InternalLink(link) => {
            lemma_link_balanced(link, true);
        },
        RichTextView::ExternalLink(link) => {
            lemma_link_balanced(link, false);
        },
        RichTextView::InternalImage(link) => {
            lemma_link_balanced(link, true);
        },
        RichTextView::ExternalImage(link) => {
            lemma_link_balanced(link, true);
        },
        RichTextView::Heading { level, text, id } => {
            lemma_balanced_flat(XmlOutView::Characters(text));
            lemma_balanced_wrapped(
                super::heading_name(level),
                seq![("id"@, id)],
                seq![XmlOutView::Characters(text)],
            );
        },
        RichTextView::TextBreak(kind) => {
            lemma_balanced_wrapped("hr"@, Seq::empty(), Seq::empty());
            lemma_balanced_wrapped("br"@, Seq::empty(), Seq::empty());
        },
        RichTextView::List { style, items } => {
            lemma_items_balanced(items, items.len() as int);
            match items_events(items, items.len() as int) {
                Ok(inner) => {
                    match style {
                        crate::bookir::ListStyle::Ordered(n) => {
                            lemma_balanced_wrapped(
                                "ol"@,
                                seq![("start"@, crate::text::decimal(n as nat))],
                                inner,
                            );
                        },
                        crate::bookir::ListStyle::Unordered => {
                            lemma_balanced_wrapped("ul"@, Seq::empty(), inner);
                        },
                    }
                },
                Err(_) => {},
            }
        },
        RichTextView::BlockQuote(children) => {
            lemma_all_balanced(children);
            match all_events(children) {
                Ok(inner) => {
                    lemma_balanced_wrapped("bq"@, Seq::empty(), inner);
                },
                Err(_) => {},
            }
        },
        RichTextView::Table(_) => {},
    }
}

/// The document of a chapter, after its declaration, is well nested.
pub proof fn lemma_chapter_balanced(content: Seq<RichTextView>)
    ensures
        chapter_events(content) matches Ok(events) ==> balanced(events),
{
    lemma_all_balanced(content);
    match all_events(content) {
        Ok(inner) => {
            lemma_balanced_wrapped("body"@, Seq::empty(), inner);
            let body = wrapped("body"@, Seq::empty(), inner);
            let html = XmlOutView::StartElement {
                name: "html"@,
                attrs: Seq::empty(),
                namespaces: seq![(""@, "http://www.w3.org/1999/xhtml"@)],
            };
            let open = seq![html];
            let close = seq![XmlOutView::EndElement];
            let element = open + body + close;
            assert(depth(open, 1) == depth(open, 0) + step(open[0]));
            assert(depth(close, 1) == depth(close, 0) + step(close[0]));
            assert forall|n: int| 0 <= n <= element.len() implies #[trigger] depth(element, n)
                >= 0 by {
                lemma_depth_add(open + body, close, n);
                if n <= (open + body).len() {
                    lemma_depth_add(open, body, n);
                    if n > 1 {
                        assert(depth(body, n - 1) >= 0);
                    }
                } else {
                    lemma_depth_add(open, body, (open + body).len() as int);
                }
            }
            lemma_depth_add(open + body, close, element.len() as int);
            lemma_depth_add(open, body, (open + body).len() as int);
            assert(depth(body, body.len() as int) == 0);
            assert(balanced(element));
            lemma_balanced_flat(XmlOutView::StartDocument(super::XmlVersion::Version11));
            lemma_balanced_add(
                seq![XmlOutView::StartDocument(super::XmlVersion::Version11)],
                element,
            );
            assert(chapter_events(content)->Ok_0 =~= seq![
                XmlOutView::StartDocument(super::XmlVersion::Version11),
            ] + element);
        },
        Err(_) => {},
    }
}

} // verus!
