//! What holds of every tree that the parser of rich text builds.

use super::events::{Construct, MdEvent, MdTag, MdTagEnd};
use super::grammar::{
    children_from, code_text, content_from, elem_at, heading_text, is_styled_run, list_items,
    merged, parsed, style_of, styled, tag_at, xhtml_at, EndMarkerView, ParseError, StepView,
};
use super::{
    reads_as, rich_views, InlineXhtmlView, LinkView, RichText, RichTextOptions, RichTextView,
};
use vstd::prelude::*;

verus! {

/// Whether every node of `s` is flat.
pub open spec fn all_flat(s: Seq<RichTextView>) -> bool
    decreases s,
{
    forall|i: int| 0 <= i < s.len() ==> flat(#[trigger] s[i])
}

/// Whether every row of `rows` holds flat nodes only.
pub open spec fn rows_flat(rows: Seq<Seq<RichTextView>>) -> bool
    decreases rows,
{
    forall|i: int| 0 <= i < rows.len() ==> all_flat(#[trigger] rows[i])
}

/// Whether what a link holds is flat.
pub open spec fn link_flat(link: LinkView) -> bool
    decreases link,
{
    match link {
        LinkView::Text { children, .. } => all_flat(children),
        LinkView::Footnote(_) => true,
    }
}

/// A node is flat where no styled run in it, at any depth, holds one styled
/// run and nothing else: styles never nest without need.
pub open spec fn flat(node: RichTextView) -> bool
    decreases node,
{
    match node {
        RichTextView::Stylised(_, children) => !is_styled_run(children) && all_flat(children),
        RichTextView::Paragraph(children) => all_flat(children),
        RichTextView::BlockQuote(children) => all_flat(children),
        RichTextView::Xhtml(InlineXhtmlView::Node(_, Some(children))) => all_flat(children),
        RichTextView::List { items, .. } => rows_flat(items),
        RichTextView::InternalLink(link) => link_flat(link),
        RichTextView::ExternalLink(link) => link_flat(link),
        RichTextView::InternalImage(link) => link_flat(link),
        RichTextView::ExternalImage(link) => link_flat(link),
        RichTextView::Table(table) => (match table.head {
            Some(head) => all_flat(head),
            None => true,
        }) && rows_flat(table.body),
        _ => true,
    }
}

/// Whether `event` opens a construct that rich text cannot hold.
pub open spec fn opens_unsupported(event: MdEvent) -> bool {
    event matches MdEvent::Start(MdTag::Unsupported(_)) || event matches MdEvent::Start(
        MdTag::FootnoteDefinition(_),
    )
}

/// Whether no event of `ev` from `from` up to `to` opens a construct that
/// rich text cannot hold.
pub open spec fn clean(ev: Seq<MdEvent>, from: int, to: int) -> bool {
    forall|i: int| from <= i < to && 0 <= i < ev.len() ==> !opens_unsupported(#[trigger] ev[i])
}

/// A styled run made by [`styled`] of flat nodes is flat.
pub proof fn lemma_styled_flat(children: Seq<RichTextView>, style: super::Attributes)
    requires
        all_flat(children),
    ensures
        flat(styled(children, style)),
{
    if is_styled_run(children) {
        assert(flat(children[0]));
    }
}

proof fn lemma_push_flat(s: Seq<RichTextView>, node: RichTextView)
    requires
        all_flat(s),
        flat(node),
    ensures
        all_flat(s.push(node)),
{
    assert forall|i: int| 0 <= i < s.push(node).len() implies flat(#[trigger] s.push(node)[i]) by {
        if i < s.len() {
            assert(s.push(node)[i] == s[i]);
        }
    }
}

proof fn lemma_push_rows_flat(rows: Seq<Seq<RichTextView>>, row: Seq<RichTextView>)
    requires
        rows_flat(rows),
        all_flat(row),
    ensures
        rows_flat(rows.push(row)),
{
    assert forall|i: int| 0 <= i < rows.push(row).len() implies all_flat(
        #[trigger] rows.push(row)[i],
    ) by {
        if i < rows.len() {
            assert(rows.push(row)[i] == rows[i]);
        }
    }
}

proof fn lemma_heading_text(ev: Seq<MdEvent>, pos: int, acc: Seq<char>)
    requires
        0 <= pos,
    ensures
        heading_text(ev, pos, acc) matches Ok((_, next)) ==> pos < next <= ev.len() && clean(
            ev,
            pos,
            next,
        ),
    decreases ev.len() - pos,
{
    if pos < ev.len() {
        match ev[pos] {
            MdEvent::Text(text) => {
                lemma_heading_text(ev, pos + 1, acc + text@);
            },
            _ => {},
        }
    }
}

proof fn lemma_code_text(ev: Seq<MdEvent>, pos: int, acc: Seq<char>)
    requires
        0 <= pos,
    ensures
        code_text(ev, pos, acc) matches Ok((_, next)) ==> pos < next <= ev.len() && clean(
            ev,
            pos,
            next,
        ),
    decreases ev.len() - pos,
{
    if pos < ev.len() {
        match ev[pos] {
            MdEvent::Text(text) => {
                lemma_code_text(ev, pos + 1, acc + text@);
            },
            _ => {},
        }
    }
}

/// What stands at a position ends after it, is flat, and was read from
/// events that rich text can hold.
pub proof fn lemma_elem_at(ev: Seq<MdEvent>, pos: int)
    requires
        0 <= pos,
    ensures
        match elem_at(ev, pos) {
            Ok((Some(step), next)) => pos < next <= ev.len() && clean(ev, pos, next) && (
            step matches StepView::Elem(node) ==> flat(node)),
            Ok((None, next)) => clean(ev, pos, ev.len() as int),
            Err(_) => true,
        },
    decreases ev.len() - pos, 2int,
{
    if pos < ev.len() {
        match ev[pos] {
            MdEvent::Html(html) => {
                lemma_xhtml_at(ev, pos, html@);
            },
            MdEvent::Start(MdTag::HtmlBlock) => {
                lemma_elem_at(ev, pos + 1);
            },
            MdEvent::End(MdTagEnd::HtmlBlock) => {
                lemma_elem_at(ev, pos + 1);
            },
            MdEvent::Start(tag) => {
                lemma_tag_at(ev, pos, tag);
            },
            _ => {},
        }
    }
}

/// The children of a run end after where they start, are flat where those
/// read before are, and were read from events that rich text can hold.
pub proof fn lemma_children_from(ev: Seq<MdEvent>, pos: int, acc: Seq<RichTextView>)
    requires
        0 <= pos,
        all_flat(acc),
    ensures
        children_from(ev, pos, acc) matches Ok((children, _, next)) ==> pos < next <= ev.len()
            && clean(ev, pos, next) && all_flat(children),
    decreases ev.len() - pos, 3int,
{
    lemma_elem_at(ev, pos);
    match elem_at(ev, pos) {
        Ok((Some(StepView::Elem(node)), next)) => {
            lemma_push_flat(acc, node);
            lemma_children_from(ev, next, acc.push(node));
        },
        _ => {},
    }
}

proof fn lemma_list_items(ev: Seq<MdEvent>, pos: int, acc: Seq<Seq<RichTextView>>)
    requires
        0 <= pos,
        rows_flat(acc),
    ensures
        list_items(ev, pos, acc) matches Ok((items, next)) ==> pos < next <= ev.len() && clean(
            ev,
            pos,
            next,
        ) && rows_flat(items),
    decreases ev.len() - pos, 4int,
{
    if pos < ev.len() {
        match ev[pos] {
            MdEvent::Start(MdTag::Item) => {
                lemma_children_from(ev, pos + 1, Seq::empty());
                match children_from(ev, pos + 1, Seq::empty()) {
                    Ok((item, _, next)) => {
                        lemma_push_rows_flat(acc, item);
                        lemma_list_items(ev, next, acc.push(item));
                    },
                    Err(_) => {},
                }
            },
            _ => {},
        }
    }
}

/// The node that a container makes ends after its opening, is flat, and was
/// read from events that rich text can hold.
pub proof fn lemma_tag_at(ev: Seq<MdEvent>, pos: int, tag: MdTag)
    requires
        0 <= pos < ev.len(),
        ev[pos] == MdEvent::Start(tag),
    ensures
        tag_at(ev, pos, tag) matches Ok((node, next)) ==> pos < next <= ev.len() && clean(
            ev,
            pos,
            next,
        ) && flat(node),
    decreases ev.len() - pos, 1int,
{
    match tag {
        MdTag::Heading { level, id } => {
            lemma_heading_text(ev, pos + 1, Seq::empty());
        },
        MdTag::CodeBlock(kind) => {
            lemma_code_text(ev, pos + 1, Seq::empty());
        },
        MdTag::List(start) => {
            lemma_list_items(ev, pos + 1, Seq::empty());
        },
        MdTag::Emphasis | MdTag::Strong | MdTag::Strikethrough => {
            lemma_children_from(ev, pos + 1, Seq::empty());
            match children_from(ev, pos + 1, Seq::empty()) {
                Ok((children, end, next)) => {
                    match style_of(end) {
                        Some(style) => {
                            lemma_styled_flat(children, style);
                        },
                        None => {},
                    }
                },
                Err(_) => {},
            }
        },
        MdTag::HtmlBlock | MdTag::Item | MdTag::Unsupported(_) | MdTag::FootnoteDefinition(_) => {},
        _ => {
            lemma_children_from(ev, pos + 1, Seq::empty());
        },
    }
}

proof fn lemma_xhtml_at(ev: Seq<MdEvent>, pos: int, blob: Seq<char>)
    requires
        0 <= pos < ev.len(),
        ev[pos] matches MdEvent::Html(_),
    ensures
        xhtml_at(ev, pos, blob) matches Ok((node, next)) ==> pos < next <= ev.len() && clean(
            ev,
            pos,
            next,
        ) && flat(node),
    decreases ev.len() - pos, 1int,
{
    lemma_children_from(ev, pos + 1, Seq::empty());
}

proof fn lemma_content_from(ev: Seq<MdEvent>, pos: int, acc: Seq<RichTextView>)
    requires
        0 <= pos,
        all_flat(acc),
    ensures
        content_from(ev, pos, acc) matches Ok(content) ==> all_flat(content) && clean(
            ev,
            pos,
            ev.len() as int,
        ),
    decreases ev.len() - pos, 3int,
{
    lemma_elem_at(ev, pos);
    match elem_at(ev, pos) {
        Ok((Some(StepView::Elem(node)), next)) => {
            lemma_push_flat(acc, node);
            lemma_content_from(ev, next, acc.push(node));
        },
        _ => {},
    }
}

/// However the emphasis markers of a chapter nest, no styled run of its tree
/// holds one styled run and nothing else: a run of styles is one node.
pub proof fn lemma_parsed_is_flat(ev: Seq<MdEvent>)
    ensures
        parsed(ev) matches Ok(content) ==> all_flat(content),
{
    lemma_content_from(ev, 0, Seq::empty());
}

/// An emphasis run that holds one styled run and nothing else becomes that
/// run with one more style: emphasis right inside strong emphasis, or the
/// other way round, is one node that is both bold and italic.
pub proof fn lemma_nested_emphasis(
    ev: Seq<MdEvent>,
    pos: int,
    outer: MdTag,
    inner: MdTag,
    style: super::Attributes,
    children: Seq<RichTextView>,
    next: int,
    end: MdTagEnd,
)
    requires
        0 <= pos,
        pos + 1 < ev.len(),
        outer is Emphasis || outer is Strong || outer is Strikethrough,
        inner is Emphasis || inner is Strong || inner is Strikethrough,
        ev[pos] == MdEvent::Start(outer),
        ev[pos + 1] == MdEvent::Start(inner),
        tag_at(ev, pos + 1, inner) == Ok::<_, ParseError>(
            (RichTextView::Stylised(style, children), next),
        ),
        next < ev.len(),
        ev[next] == MdEvent::End(end),
        end is Emphasis || end is Strong || end is Strikethrough,
    ensures
        tag_at(ev, pos, outer) == Ok::<_, ParseError>(
            (
                RichTextView::Stylised(
                    merged(style, style_of(EndMarkerView::MdTag(end))->0),
                    children,
                ),
                next + 1,
            ),
        ),
{
    lemma_tag_at(ev, pos + 1, inner);
    let node = RichTextView::Stylised(style, children);
    assert(elem_at(ev, pos + 1) == Ok::<_, ParseError>((Some(StepView::Elem(node)), next)));
    assert(elem_at(ev, next) == Ok::<_, ParseError>(
        (Some(StepView::End(EndMarkerView::MdTag(end))), next + 1),
    ));
    let one = Seq::<RichTextView>::empty().push(node);
    assert(children_from(ev, next, one) == Ok::<_, ParseError>(
        (one, EndMarkerView::MdTag(end), next + 1),
    ));
    assert(children_from(ev, pos + 1, Seq::empty()) == Ok::<_, ParseError>(
        (one, EndMarkerView::MdTag(end), next + 1),
    ));
    assert(is_styled_run(one));
}

/// A chapter that opens a table, or any other construct that rich text
/// cannot hold, at any place has no tree: it is refused as a whole.
pub proof fn lemma_unsupported_is_refused(ev: Seq<MdEvent>, at: int)
    requires
        0 <= at < ev.len(),
        opens_unsupported(ev[at]),
    ensures
        parsed(ev) is Err,
{
    lemma_content_from(ev, 0, Seq::empty());
}

/// Reading the same text twice gives the same tree: whatever two runs of
/// the parser over one text under the same options hand back, both are
/// trees with the same model, or both are the same refusal. Nothing but the
/// text and the options has a part in the outcome.
pub proof fn lemma_same_text_same_tree(
    text: Seq<char>,
    options: RichTextOptions,
    first: Result<Vec<RichText>, ParseError>,
    second: Result<Vec<RichText>, ParseError>,
)
    requires
        reads_as(first, text, options),
        reads_as(second, text, options),
    ensures
        match first {
            Ok(tree) => second matches Ok(again) && rich_views(again@) == rich_views(tree@),
            Err(e) => second == Err::<Vec<RichText>, _>(e),
        },
{
}


/// Whether `event` is what the parser names when it refuses `construct`.
pub open spec fn shows(event: MdEvent, construct: Construct) -> bool {
    match event {
        MdEvent::Start(MdTag::Unsupported(c)) => c == construct,
        MdEvent::Start(MdTag::FootnoteDefinition(_)) => construct == Construct::FootnoteDefinition,
        MdEvent::Math(_) => construct == Construct::Math,
        MdEvent::TaskListMarker(_) => construct == Construct::TaskListMarker,
        _ => false,
    }
}

/// Whether some event of `ev` shows `construct`.
pub open spec fn blamed(ev: Seq<MdEvent>, construct: Construct) -> bool {
    exists|i: int| 0 <= i < ev.len() && shows(#[trigger] ev[i], construct)
}

/// Whether `r` does not name a construct that `ev` does not hold. Rich
/// content in a heading is shown by no single event and is left out.
pub open spec fn well_labelled<T>(r: Result<T, ParseError>, ev: Seq<MdEvent>) -> bool {
    r matches Err(ParseError::Unsupported(c)) ==> c == Construct::RichHeading || blamed(ev, c)
}

proof fn lemma_label_heading_text(ev: Seq<MdEvent>, pos: int, acc: Seq<char>)
    requires
        0 <= pos,
    ensures
        well_labelled(heading_text(ev, pos, acc), ev),
    decreases ev.len() - pos,
{
    if pos < ev.len() {
        match ev[pos] {
            MdEvent::Text(text) => {
                lemma_label_heading_text(ev, pos + 1, acc + text@);
            },
            _ => {},
        }
    }
}

proof fn lemma_label_code_text(ev: Seq<MdEvent>, pos: int, acc: Seq<char>)
    requires
        0 <= pos,
    ensures
        well_labelled(code_text(ev, pos, acc), ev),
    decreases ev.len() - pos,
{
    if pos < ev.len() {
        match ev[pos] {
            MdEvent::Text(text) => {
                lemma_label_code_text(ev, pos + 1, acc + text@);
            },
            _ => {},
        }
    }
}

proof fn lemma_label_elem_at(ev: Seq<MdEvent>, pos: int)
    requires
        0 <= pos,
    ensures
        well_labelled(elem_at(ev, pos), ev),
    decreases ev.len() - pos, 2int,
{
    if pos < ev.len() {
        assert(shows(ev[pos], Construct::Math) ==> blamed(ev, Construct::Math));
        assert(shows(ev[pos], Construct::TaskListMarker) ==> blamed(
            ev,
            Construct::TaskListMarker,
        ));
        match ev[pos] {
            MdEvent::Html(html) => {
                lemma_label_xhtml_at(ev, pos, html@);
            },
            MdEvent::Start(MdTag::HtmlBlock) => {
                lemma_label_elem_at(ev, pos + 1);
            },
            MdEvent::End(MdTagEnd::HtmlBlock) => {
                lemma_label_elem_at(ev, pos + 1);
            },
            MdEvent::Start(tag) => {
                lemma_label_tag_at(ev, pos, tag);
            },
            _ => {},
        }
    }
}

proof fn lemma_label_children_from(ev: Seq<MdEvent>, pos: int, acc: Seq<RichTextView>)
    requires
        0 <= pos,
    ensures
        well_labelled(children_from(ev, pos, acc), ev),
    decreases ev.len() - pos, 3int,
{
    lemma_label_elem_at(ev, pos);
    match elem_at(ev, pos) {
        Ok((Some(StepView::Elem(node)), next)) => {
            if pos < next <= ev.len() {
                lemma_label_children_from(ev, next, acc.push(node));
            }
        },
        _ => {},
    }
}

proof fn lemma_label_list_items(ev: Seq<MdEvent>, pos: int, acc: Seq<Seq<RichTextView>>)
    requires
        0 <= pos,
    ensures
        well_labelled(list_items(ev, pos, acc), ev),
    decreases ev.len() - pos, 4int,
{
    if pos < ev.len() {
        match ev[pos] {
            MdEvent::Start(MdTag::Item) => {
                lemma_label_children_from(ev, pos + 1, Seq::empty());
                match children_from(ev, pos + 1, Seq::empty()) {
                    Ok((item, _, next)) => {
                        if pos < next <= ev.len() {
                            lemma_label_list_items(ev, next, acc.push(item));
                        }
                    },
                    Err(_) => {},
                }
            },
            _ => {},
        }
    }
}

proof fn lemma_label_tag_at(ev: Seq<MdEvent>, pos: int, tag: MdTag)
    requires
        0 <= pos < ev.len(),
        ev[pos] == MdEvent::Start(tag),
    ensures
        well_labelled(tag_at(ev, pos, tag), ev),
    decreases ev.len() - pos, 1int,
{
    match tag {
        MdTag::Heading { level, id } => {
            lemma_label_heading_text(ev, pos + 1, Seq::empty());
        },
        MdTag::CodeBlock(kind) => {
            lemma_label_code_text(ev, pos + 1, Seq::empty());
        },
        MdTag::List(start) => {
            lemma_label_list_items(ev, pos + 1, Seq::empty());
        },
        MdTag::HtmlBlock | MdTag::Item => {},
        MdTag::Unsupported(construct) => {
            assert(shows(ev[pos], construct));
        },
        MdTag::FootnoteDefinition(_) => {
            assert(shows(ev[pos], Construct::FootnoteDefinition));
        },
        _ => {
            lemma_label_children_from(ev, pos + 1, Seq::empty());
        },
    }
}

proof fn lemma_label_xhtml_at(ev: Seq<MdEvent>, pos: int, blob: Seq<char>)
    requires
        0 <= pos < ev.len(),
    ensures
        well_labelled(xhtml_at(ev, pos, blob), ev),
    decreases ev.len() - pos, 1int,
{
    lemma_label_children_from(ev, pos + 1, Seq::empty());
}

proof fn lemma_label_content_from(ev: Seq<MdEvent>, pos: int, acc: Seq<RichTextView>)
    requires
        0 <= pos,
    ensures
        well_labelled(content_from(ev, pos, acc), ev),
    decreases ev.len() - pos, 3int,
{
    lemma_label_elem_at(ev, pos);
    match elem_at(ev, pos) {
        Ok((Some(StepView::Elem(node)), next)) => {
            if pos < next <= ev.len() {
                lemma_label_content_from(ev, next, acc.push(node));
            }
        },
        _ => {},
    }
}

/// A refusal is labelled with a construct that the chapter holds: where the
/// parser says that it cannot hold a table, the stream opens a table, and
/// so for every construct that a single event shows.
pub proof fn lemma_refusal_is_labelled(ev: Seq<MdEvent>, construct: Construct)
    requires
        parsed(ev) == Err::<Seq<RichTextView>, _>(ParseError::Unsupported(construct)),
        construct != Construct::RichHeading,
    ensures
        blamed(ev, construct),
{
    lemma_label_content_from(ev, 0, Seq::empty());
}


/// The destination that a link or an image node holds, and whether the node
/// is an external one.
pub open spec fn link_target(node: RichTextView) -> Option<(Seq<char>, bool)> {
    match node {
        RichTextView::InternalLink(LinkView::Text { destination, .. }) => Some(
            (destination, false),
        ),
        RichTextView::InternalImage(LinkView::Text { destination, .. }) => Some(
            (destination, false),
        ),
        RichTextView::ExternalLink(LinkView::Text { destination, .. }) => Some((destination, true)),
        RichTextView::ExternalImage(LinkView::Text { destination, .. }) => Some(
            (destination, true),
        ),
        _ => None,
    }
}

/// A link keeps its destination as it was written, and it is an external
/// link exactly when the destination holds `://`.
pub proof fn lemma_link_keeps_destination(
    ev: Seq<MdEvent>,
    pos: int,
    destination: String,
    title: String,
)
    requires
        0 <= pos < ev.len(),
    ensures
        tag_at(ev, pos, MdTag::Link { dest_url: destination, title }) matches Ok((node, _))
            ==> link_target(node) == Some((destination@, super::grammar::is_external(destination@)))
            && (node is InternalLink || node is ExternalLink),
        tag_at(ev, pos, MdTag::Image { dest_url: destination, title }) matches Ok((node, _))
            ==> link_target(node) == Some((destination@, super::grammar::is_external(destination@)))
            && (node is InternalImage || node is ExternalImage),
{
}

/// A heading keeps an identifier that its source gives it; without one it
/// gets the identifier of its text.
pub proof fn lemma_heading_id(
    ev: Seq<MdEvent>,
    pos: int,
    level: super::HeadingLevel,
    id: Option<String>,
)
    requires
        0 <= pos < ev.len(),
    ensures
        tag_at(ev, pos, MdTag::Heading { level, id }) matches Ok((node, _)) ==> node
            matches RichTextView::Heading { level: l, text, id: i } && l == level && i == (match id {
            Some(given) => given@,
            None => crate::helpers::id_of(text),
        }),
{
}

} // verus!
