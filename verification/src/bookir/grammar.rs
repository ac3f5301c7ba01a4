//! What the parser of rich text makes of an event stream.
//!
//! The functions of this module read a stream of events from a position on
//! and say which node stands there and where the next one starts. They are
//! the statement that the executable parser is held to.

use super::events::{
    markdown_events, Construct, MdCodeBlockKind, MdEvent, MdTag, MdTagEnd,
    ENABLE_GFM, ENABLE_HEADING_ATTRIBUTES, ENABLE_MATH, ENABLE_STRIKETHROUGH, ENABLE_TABLES,
};
use super::markup::{entered, xml_tokens, XmlElemView, XmlToken};
use super::{
    Attributes, BreakType, InlineXhtmlView, LinkView, ListStyle, RichTextOptions, RichTextView,
};
use crate::helpers::id_of;
use crate::text::{contains_sub, strip_prefix, strip_suffix, trimmed};
use vstd::prelude::*;
use vstd::string::*;

verus! {

/// Why a chapter has no rich-text tree.
#[derive(Debug, Clone, Copy, PartialEq, Eq, Hash)]
pub enum ParseError {
    /// The chapter uses a construct that rich text cannot hold.
    Unsupported(Construct),
    /// A piece of embedded markup is not one well-formed tag, or a block of
    /// it is closed by something else than its own closing tag.
    MalformedMarkup,
    /// An event stands where the construct that is open cannot take it.
    UnexpectedEvent,
    /// The stream ends inside a construct.
    UnexpectedEnd,
}

/// What closes a run of children.
pub enum EndMarkerView {
    /// The closing of a Markdown container.
    MdTag(MdTagEnd),
    /// A closing tag written as raw markup, with the name in it.
    XhtmlTag(Seq<char>),
}

/// What stands at a position: a node, or the closing of the run it is in.
pub enum StepView {
    Elem(RichTextView),
    End(EndMarkerView),
}

/// The kinds of raw markup.
pub enum MarkupView {
    Comment(Seq<char>),
    CData(Seq<char>),
    /// A closing tag, with the name in it.
    Closing(Seq<char>),
    /// Anything else: to be read as one opening tag.
    Opening,
    /// A comment, a CDATA section or a closing tag that does not end as one.
    Malformed,
}

/// What opens a comment.
pub open spec fn comment_open() -> Seq<char> {
    seq!['<', '!', '-', '-']
}

/// What closes a comment.
pub open spec fn comment_close() -> Seq<char> {
    seq!['-', '-', '>']
}

/// What opens a CDATA section.
pub open spec fn cdata_open() -> Seq<char> {
    seq!['<', '!', '[', 'C', 'D', 'A', 'T', 'A', '[']
}

/// What closes a CDATA section.
pub open spec fn cdata_close() -> Seq<char> {
    seq![']', ']', '>']
}

/// What opens a closing tag.
pub open spec fn closing_open() -> Seq<char> {
    seq!['<', '/']
}

/// What closes a tag.
pub open spec fn closing_close() -> Seq<char> {
    seq!['>']
}

/// What separates a scheme from the rest of an address.
pub open spec fn scheme_mark() -> Seq<char> {
    seq![':', '/', '/']
}

/// A destination is external exactly when it holds `://`.
pub open spec fn is_external(destination: Seq<char>) -> bool {
    contains_sub(destination, scheme_mark())
}

/// Tells a piece of raw markup by how it starts and ends.
pub open spec fn classify_markup(html: Seq<char>) -> MarkupView {
    match strip_prefix(html, comment_open()) {
        Some(rest) => match strip_suffix(rest, comment_close()) {
            Some(body) => MarkupView::Comment(body),
            None => MarkupView::Malformed,
        },
        None => match strip_prefix(html, cdata_open()) {
            Some(rest) => match strip_suffix(rest, cdata_close()) {
                Some(body) => MarkupView::CData(body),
                None => MarkupView::Malformed,
            },
            None => match strip_prefix(html, closing_open()) {
                Some(rest) => match strip_suffix(rest, closing_close()) {
                    Some(name) => MarkupView::Closing(trimmed(name)),
                    None => MarkupView::Malformed,
                },
                None => MarkupView::Opening,
            },
        },
    }
}

/// The token at index `i`, where reading past the end counts as an error.
pub open spec fn token_at(tokens: Seq<XmlToken>, i: int) -> XmlToken {
    if 0 <= i < tokens.len() {
        tokens[i]
    } else {
        XmlToken::Invalid
    }
}

/// Reads what the markup reader reported as one element: the token after the
/// start of the document must open an element. The element is closed where
/// the token after it ends an element, which must then carry the same name.
pub open spec fn fragment_of(tokens: Seq<XmlToken>) -> Result<(XmlElemView, bool), ParseError> {
    let at = if token_at(tokens, 0) is StartDocument {
        1int
    } else {
        0int
    };
    match token_at(tokens, at) {
        XmlToken::StartElement { name, attrs } => {
            let elem = XmlElemView { name: name@, attrs: entered(attrs@, attrs.len() as int) };
            match token_at(tokens, at + 1) {
                XmlToken::EndElement { name: end } => if end@ == name@ {
                    Ok((elem, true))
                } else {
                    Err(ParseError::MalformedMarkup)
                },
                _ => Ok((elem, false)),
            }
        },
        _ => Err(ParseError::MalformedMarkup),
    }
}

/// The style that the closing of an emphasis run switches on.
pub open spec fn style_of(end: EndMarkerView) -> Option<Attributes> {
    match end {
        EndMarkerView::MdTag(MdTagEnd::Strong) => Some(
            Attributes { bold: true, ..Attributes::plain() },
        ),
        EndMarkerView::MdTag(MdTagEnd::Emphasis) => Some(
            Attributes { italics: true, ..Attributes::plain() },
        ),
        EndMarkerView::MdTag(MdTagEnd::Strikethrough) => Some(
            Attributes { strikethrough: true, ..Attributes::plain() },
        ),
        _ => None,
    }
}

/// Every style that `a` or `b` has.
pub open spec fn merged(a: Attributes, b: Attributes) -> Attributes {
    Attributes {
        bold: a.bold || b.bold,
        italics: a.italics || b.italics,
        underline: a.underline || b.underline,
        strikethrough: a.strikethrough || b.strikethrough,
    }
}

/// Whether `children` is one styled run and nothing else.
pub open spec fn is_styled_run(children: Seq<RichTextView>) -> bool {
    children.len() == 1 && children[0] is Stylised
}

/// The styled run that `children` make under `style`: where they are one
/// styled run already, that run takes the style; otherwise they are wrapped.
pub open spec fn styled(children: Seq<RichTextView>, style: Attributes) -> RichTextView {
    if is_styled_run(children) {
        RichTextView::Stylised(merged(children[0]->Stylised_0, style), children[0]->Stylised_1)
    } else {
        RichTextView::Stylised(style, children)
    }
}

/// The link or image that `children` make under a destination and a title.
pub open spec fn link_node(
    image: bool,
    destination: Seq<char>,
    title: Seq<char>,
    children: Seq<RichTextView>,
) -> RichTextView {
    let link = LinkView::Text { title, children, destination };
    if image {
        if is_external(destination) {
            RichTextView::ExternalImage(link)
        } else {
            RichTextView::InternalImage(link)
        }
    } else {
        if is_external(destination) {
            RichTextView::ExternalLink(link)
        } else {
            RichTextView::InternalLink(link)
        }
    }
}

/// The text of a heading from `pos` on: raw text only, up to the closing of
/// the heading. `acc` is the text read so far.
pub open spec fn heading_text(ev: Seq<MdEvent>, pos: int, acc: Seq<char>) -> Result<
    (Seq<char>, int),
    ParseError,
>
    decreases ev.len() - pos,
{
    if pos < 0 || pos >= ev.len() {
        Err(ParseError::UnexpectedEnd)
    } else {
        match ev[pos] {
            MdEvent::End(MdTagEnd::Heading) => Ok((acc, pos + 1)),
            MdEvent::Text(text) => heading_text(ev, pos + 1, acc + text@),
            _ => Err(ParseError::Unsupported(Construct::RichHeading)),
        }
    }
}

/// The content of a code block from `pos` on: raw text only, up to the
/// closing of the block. `acc` is the text read so far.
pub open spec fn code_text(ev: Seq<MdEvent>, pos: int, acc: Seq<char>) -> Result<
    (Seq<char>, int),
    ParseError,
>
    decreases ev.len() - pos,
{
    if pos < 0 || pos >= ev.len() {
        Err(ParseError::UnexpectedEnd)
    } else {
        match ev[pos] {
            MdEvent::End(MdTagEnd::CodeBlock) => Ok((acc, pos + 1)),
            MdEvent::Text(text) => code_text(ev, pos + 1, acc + text@),
            _ => Err(ParseError::UnexpectedEvent),
        }
    }
}

/// The node at `pos`, with the position after it; `None` where the stream
/// has ended. An HTML block's opening and closing are passed over.
pub open spec fn elem_at(ev: Seq<MdEvent>, pos: int) -> Result<(Option<StepView>, int), ParseError>
    decreases ev.len() - pos, 2int,
{
    if pos < 0 || pos >= ev.len() {
        Ok((None, pos))
    } else {
        match ev[pos] {
            MdEvent::Text(text) => Ok((Some(StepView::Elem(RichTextView::RawText(text@))), pos + 1)),
            MdEvent::Code(code) => Ok(
                (Some(StepView::Elem(RichTextView::InlineCode(code@))), pos + 1),
            ),
            MdEvent::Math(_) => Err(ParseError::Unsupported(Construct::Math)),
            MdEvent::Html(html) => match classify_markup(html@) {
                MarkupView::Comment(body) => Ok(
                    (
                        Some(StepView::Elem(RichTextView::Xhtml(InlineXhtmlView::Comment(body)))),
                        pos + 1,
                    ),
                ),
                MarkupView::CData(body) => Ok(
                    (
                        Some(StepView::Elem(RichTextView::Xhtml(InlineXhtmlView::CData(body)))),
                        pos + 1,
                    ),
                ),
                MarkupView::Closing(name) => Ok(
                    (Some(StepView::End(EndMarkerView::XhtmlTag(name))), pos + 1),
                ),
                MarkupView::Malformed => Err(ParseError::MalformedMarkup),
                MarkupView::Opening => match xhtml_at(ev, pos, html@) {
                    Ok((node, next)) => Ok((Some(StepView::Elem(node)), next)),
                    Err(e) => Err(e),
                },
            },
            MdEvent::FootnoteReference(id) => Ok(
                (
                    Some(StepView::Elem(RichTextView::InternalLink(LinkView::Footnote(id@)))),
                    pos + 1,
                ),
            ),
            MdEvent::SoftBreak => Ok(
                (Some(StepView::Elem(RichTextView::TextBreak(BreakType::SoftLine))), pos + 1),
            ),
            MdEvent::HardBreak => Ok(
                (Some(StepView::Elem(RichTextView::TextBreak(BreakType::HardLine))), pos + 1),
            ),
            MdEvent::Rule => Ok(
                (Some(StepView::Elem(RichTextView::TextBreak(BreakType::Rule))), pos + 1),
            ),
            MdEvent::TaskListMarker(_) => Err(ParseError::Unsupported(Construct::TaskListMarker)),
            MdEvent::Start(MdTag::HtmlBlock) => elem_at(ev, pos + 1),
            MdEvent::End(MdTagEnd::HtmlBlock) => elem_at(ev, pos + 1),
            MdEvent::End(end) => Ok((Some(StepView::End(EndMarkerView::MdTag(end))), pos + 1)),
            MdEvent::Start(tag) => match tag_at(ev, pos, tag) {
                Ok((node, next)) => Ok((Some(StepView::Elem(node)), next)),
                Err(e) => Err(e),
            },
        }
    }
}

/// The nodes from `pos` up to the closing of the run, with that closing and
/// the position after it. `acc` holds the nodes read so far.
pub open spec fn children_from(ev: Seq<MdEvent>, pos: int, acc: Seq<RichTextView>) -> Result<
    (Seq<RichTextView>, EndMarkerView, int),
    ParseError,
>
    decreases ev.len() - pos, 3int,
{
    match elem_at(ev, pos) {
        Err(e) => Err(e),
        Ok((None, _)) => Err(ParseError::UnexpectedEnd),
        Ok((Some(StepView::End(end)), next)) => Ok((acc, end, next)),
        Ok((Some(StepView::Elem(node)), next)) => if pos < next <= ev.len() {
            children_from(ev, next, acc.push(node))
        } else {
            Err(ParseError::UnexpectedEnd)
        },
    }
}

/// The items of a list from `pos` up to the closing of the list. `acc` holds
/// the items read so far.
pub open spec fn list_items(ev: Seq<MdEvent>, pos: int, acc: Seq<Seq<RichTextView>>) -> Result<
    (Seq<Seq<RichTextView>>, int),
    ParseError,
>
    decreases ev.len() - pos, 4int,
{
    if pos < 0 || pos >= ev.len() {
        Err(ParseError::UnexpectedEnd)
    } else {
        match ev[pos] {
            MdEvent::End(MdTagEnd::List) => Ok((acc, pos + 1)),
            MdEvent::Start(MdTag::Item) => match children_from(ev, pos + 1, Seq::empty()) {
                Err(e) => Err(e),
                Ok((item, _, next)) => if pos < next <= ev.len() {
                    list_items(ev, next, acc.push(item))
                } else {
                    Err(ParseError::UnexpectedEnd)
                },
            },
            _ => Err(ParseError::UnexpectedEvent),
        }
    }
}

/// The node that the container opened by `tag` at `pos` makes, with the
/// position after its closing.
pub open spec fn tag_at(ev: Seq<MdEvent>, pos: int, tag: MdTag) -> Result<
    (RichTextView, int),
    ParseError,
>
    decreases ev.len() - pos, 1int,
{
    if pos < 0 || pos >= ev.len() {
        Err(ParseError::UnexpectedEnd)
    } else {
        match tag {
            MdTag::Paragraph => match children_from(ev, pos + 1, Seq::empty()) {
                Ok((children, _, next)) => Ok((RichTextView::Paragraph(children), next)),
                Err(e) => Err(e),
            },
            MdTag::BlockQuote => match children_from(ev, pos + 1, Seq::empty()) {
                Ok((children, _, next)) => Ok((RichTextView::BlockQuote(children), next)),
                Err(e) => Err(e),
            },
            MdTag::Heading { level, id } => match heading_text(ev, pos + 1, Seq::empty()) {
                Ok((text, next)) => Ok(
                    (
                        RichTextView::Heading {
                            level,
                            text,
                            id: match id {
                                Some(id) => id@,
                                None => id_of(text),
                            },
                        },
                        next,
                    ),
                ),
                Err(e) => Err(e),
            },
            MdTag::CodeBlock(kind) => match code_text(ev, pos + 1, Seq::empty()) {
                Ok((content, next)) => Ok(
                    (
                        RichTextView::CodeBlock {
                            language: match kind {
                                MdCodeBlockKind::Fenced(lang) => lang@,
                                MdCodeBlockKind::Indented => Seq::empty(),
                            },
                            content,
                        },
                        next,
                    ),
                ),
                Err(e) => Err(e),
            },
            MdTag::List(start) => match list_items(ev, pos + 1, Seq::empty()) {
                Ok((items, next)) => Ok(
                    (
                        RichTextView::List {
                            style: match start {
                                Some(n) => ListStyle::Ordered(n),
                                None => ListStyle::Unordered,
                            },
                            items,
                        },
                        next,
                    ),
                ),
                Err(e) => Err(e),
            },
            MdTag::Link { dest_url, title } => match children_from(ev, pos + 1, Seq::empty()) {
                Ok((children, _, next)) => Ok(
                    (link_node(false, dest_url@, title@, children), next),
                ),
                Err(e) => Err(e),
            },
            MdTag::Image { dest_url, title } => match children_from(ev, pos + 1, Seq::empty()) {
                Ok((children, _, next)) => Ok((link_node(true, dest_url@, title@, children), next)),
                Err(e) => Err(e),
            },
            MdTag::Emphasis | MdTag::Strong | MdTag::Strikethrough => match children_from(
                ev,
                pos + 1,
                Seq::empty(),
            ) {
                Ok((children, end, next)) => match style_of(end) {
                    Some(style) => Ok((styled(children, style), next)),
                    None => Err(ParseError::UnexpectedEvent),
                },
                Err(e) => Err(e),
            },
            MdTag::HtmlBlock => Err(ParseError::UnexpectedEvent),
            MdTag::Item => Err(ParseError::UnexpectedEvent),
            MdTag::FootnoteDefinition(_) => Err(
                ParseError::Unsupported(Construct::FootnoteDefinition),
            ),
            MdTag::Unsupported(construct) => Err(ParseError::Unsupported(construct)),
        }
    }
}

/// The node that the opening tag `blob` at `pos` makes: the element alone
/// where the tag closes itself, else the element around the nodes up to a
/// closing tag, which must be written as raw markup and carry its name.
pub open spec fn xhtml_at(ev: Seq<MdEvent>, pos: int, blob: Seq<char>) -> Result<
    (RichTextView, int),
    ParseError,
>
    decreases ev.len() - pos, 1int,
{
    if pos < 0 || pos >= ev.len() {
        Err(ParseError::UnexpectedEnd)
    } else {
        match fragment_of(xml_tokens(blob)) {
            Err(e) => Err(e),
            Ok((elem, true)) => Ok(
                (RichTextView::Xhtml(InlineXhtmlView::Node(elem, None)), pos + 1),
            ),
            Ok((elem, false)) => match children_from(ev, pos + 1, Seq::empty()) {
                Err(e) => Err(e),
                Ok((children, EndMarkerView::XhtmlTag(name), next)) => if name == elem.name {
                    Ok((RichTextView::Xhtml(InlineXhtmlView::Node(elem, Some(children))), next))
                } else {
                    Err(ParseError::MalformedMarkup)
                },
                Ok((_, EndMarkerView::MdTag(_), _)) => Err(ParseError::MalformedMarkup),
            },
        }
    }
}

/// The nodes from `pos` to the end of the stream. A closing that no
/// container of the stream has opened is refused.
pub open spec fn content_from(ev: Seq<MdEvent>, pos: int, acc: Seq<RichTextView>) -> Result<
    Seq<RichTextView>,
    ParseError,
>
    decreases ev.len() - pos, 3int,
{
    match elem_at(ev, pos) {
        Err(e) => Err(e),
        Ok((None, _)) => Ok(acc),
        Ok((Some(StepView::End(_)), _)) => Err(ParseError::UnexpectedEvent),
        Ok((Some(StepView::Elem(node)), next)) => if pos < next <= ev.len() {
            content_from(ev, next, acc.push(node))
        } else {
            Err(ParseError::UnexpectedEnd)
        },
    }
}

/// The rich text that a whole stream of events makes.
pub open spec fn parsed(ev: Seq<MdEvent>) -> Result<Seq<RichTextView>, ParseError> {
    content_from(ev, 0, Seq::empty())
}

/// The option bits under which a chapter is tokenized: tables,
/// strikethrough, the GitHub extensions and heading attributes, and math
/// where `options` asks for it.
pub open spec fn option_bits(options: RichTextOptions) -> u32 {
    let base = ENABLE_TABLES + ENABLE_STRIKETHROUGH + ENABLE_GFM + ENABLE_HEADING_ATTRIBUTES;
    if options.math {
        (base + ENABLE_MATH) as u32
    } else {
        base as u32
    }
}

/// The rich text of a chapter written as `text`.
pub open spec fn chapter_content(text: Seq<char>, options: RichTextOptions) -> Result<
    Seq<RichTextView>,
    ParseError,
> {
    parsed(markdown_events(text, option_bits(options)))
}


impl ParseError {
    /// What the error says: a refusal of a construct names the construct.
    pub open spec fn message(&self) -> Seq<char> {
        match self {
            ParseError::Unsupported(construct) => "unsupported construct: "@ + construct.name(),
            ParseError::MalformedMarkup => "malformed embedded markup"@,
            ParseError::UnexpectedEvent => "unexpected event"@,
            ParseError::UnexpectedEnd => "unexpected end of the event stream"@,
        }
    }

    /// What the error says.
    pub fn to_string(&self) -> (text: String)
        ensures
            text@ == self.message(),
    {
        match self {
            ParseError::Unsupported(construct) => {
                let mut text = String::from_str("unsupported construct: ");
                text.append(construct.as_str());
                text
            },
            ParseError::MalformedMarkup => String::from_str("malformed embedded markup"),
            ParseError::UnexpectedEvent => String::from_str("unexpected event"),
            ParseError::UnexpectedEnd => String::from_str("unexpected end of the event stream"),
        }
    }
}

} // verus!
