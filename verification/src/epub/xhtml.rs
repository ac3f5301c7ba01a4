//! Chapters written as XHTML straight from their events, without a tree of
//! rich text in between.

use crate::bookir::events::{Construct, MdEvent, MdTag, MdTagEnd};
use crate::bookir::grammar::token_at;
use crate::bookir::markup::{read_xml_tokens, xml_tokens, XmlToken};
use crate::text::{
    chars_of, decimal, decimal_string, find_char, has_prefix, has_suffix, pair_views, position_of,
    starts_with, string_of, strip_prefix, strip_suffix, trim_bounds, trimmed,
};
use crate::xhtml::{
    add_attr, append_events, chapter_href, heading_name, heading_tag, href_of, no_attrs,
    no_events, one_attr, one_event, out_views, start, IoError, XmlOut, XmlOutView,
    XmlWriteError,
};
use vstd::prelude::*;
use vstd::string::*;

verus! {

/// The namespace of XHTML.
pub const NS_XHTML_URI: &'static str = "http://www.w3.org/1999/xhtml";

/// The media type of an XHTML document.
pub const XHTML_MEDIA: &'static str = "application/xhtml+xml";

/// Turns a refusal of the XML writer into a failure of input or output: a
/// failure of the sink is passed on as it is, any other refusal becomes
/// invalid input with the writer's words.
pub fn xml_to_io_error(e: XmlWriteError) -> (io: IoError)
    ensures
        e matches XmlWriteError::Io(inner) ==> io == inner,
        !(e is Io) ==> io.kind == crate::xhtml::IoErrorKind::InvalidInput && io.message@
            == crate::xhtml::refusal_text(e),
{
    crate::xhtml::xml_to_io_error(e)
}

/// Why a stream of events cannot be written as XHTML.
#[derive(Clone, Copy, Debug, PartialEq, Eq, Hash)]
pub enum WriteMdError {
    /// A closing tag written as raw markup does not end in `>`.
    NotAnElement,
    /// Raw markup that the markup reader cannot read.
    InvalidMarkup,
    /// Raw markup that is neither an element, nor a comment, nor a CDATA
    /// section.
    UnexpectedMarkup,
    /// An image is followed by something else than its text or its closing.
    RichImage,
    /// The stream ends right after the opening of an image.
    MissingEvent,
    /// A construct that this writer has no element for.
    Unsupported(Construct),
}

/// An opening tag with the one attribute `key`.
pub open spec fn start_with(name: Seq<char>, key: Seq<char>, value: Seq<char>) -> XmlOutView {
    start(name, seq![(key, value)])
}

/// An element without attributes and without content.
pub open spec fn empty_element(name: Seq<char>) -> Seq<XmlOutView> {
    seq![start(name, Seq::empty()), XmlOutView::EndElement]
}

/// Where a link points: a destination without a colon that ends in `.md`
/// ends in `.xhtml` instead.
pub open spec fn md_href(destination: Seq<char>) -> Seq<char> {
    if find_char(destination, ':') < destination.len() {
        destination
    } else {
        chapter_href(destination)
    }
}

/// The element that a part of a table, or any other construct that the
/// rich-text tree refuses, is written as; `None` where there is none.
pub open spec fn construct_element(construct: Construct) -> Option<Seq<char>> {
    match construct {
        Construct::Table => Some("table"@),
        Construct::TableHead => Some("thead"@),
        Construct::TableRow => Some("tr"@),
        Construct::TableCell => Some("td"@),
        _ => None,
    }
}

/// The events of a piece of raw markup that is no closing tag and no
/// comment: what the markup reader reports after the start of the document
/// must be an opening tag, a CDATA section or a comment, which is written;
/// where the end of an element follows, it is written too.
pub open spec fn markup_events(tokens: Seq<XmlToken>) -> Result<Seq<XmlOutView>, WriteMdError> {
    if token_at(tokens, 0) is Invalid {
        Err(WriteMdError::InvalidMarkup)
    } else {
        let tail = match token_at(tokens, 2) {
            XmlToken::EndElement { name } => seq![XmlOutView::EndNamed(name@)],
            _ => Seq::empty(),
        };
        match token_at(tokens, 1) {
            XmlToken::Invalid => Err(WriteMdError::InvalidMarkup),
            XmlToken::StartElement { name, attrs } => Ok(
                seq![start(name@, pair_views(attrs@))] + tail,
            ),
            XmlToken::CData(text) => Ok(seq![XmlOutView::CData(text@)] + tail),
            XmlToken::Comment(text) => Ok(seq![XmlOutView::Comment(text@)] + tail),
            _ => Err(WriteMdError::UnexpectedMarkup),
        }
    }
}

/// The events of a piece of raw markup: a closing tag closes the element of
/// its name, a comment is left out, anything else is read as markup.
pub open spec fn html_events(html: Seq<char>) -> Result<Seq<XmlOutView>, WriteMdError> {
    match strip_prefix(html, seq!['<', '/']) {
        Some(rest) => match strip_suffix(rest, seq!['>']) {
            Some(name) => Ok(seq![XmlOutView::EndNamed(trimmed(name))]),
            None => Err(WriteMdError::NotAnElement),
        },
        None => if starts_with(html, seq!['<', '!', '-', '-']) {
            Ok(Seq::empty())
        } else {
            markup_events(xml_tokens(html))
        },
    }
}

/// The opening tag that the opening of a container is written as; nothing
/// for the opening of an HTML block.
pub open spec fn tag_events(tag: MdTag) -> Result<Seq<XmlOutView>, WriteMdError> {
    match tag {
        MdTag::Paragraph => Ok(seq![start("p"@, Seq::empty())]),
        MdTag::Heading { level, id } => Ok(
            seq![
                start(
                    heading_name(level),
                    match id {
                        Some(id) => seq![("id"@, id@)],
                        None => Seq::empty(),
                    },
                ),
            ],
        ),
        MdTag::BlockQuote => Ok(seq![start("blockquote"@, Seq::empty())]),
        MdTag::CodeBlock(_) => Ok(seq![start_with("div"@, "class"@, "code"@)]),
        MdTag::HtmlBlock => Ok(Seq::empty()),
        MdTag::List(None) => Ok(seq![start("ul"@, Seq::empty())]),
        MdTag::List(Some(first)) => Ok(seq![start_with("ol"@, "start"@, decimal(first as nat))]),
        MdTag::Item => Ok(seq![start("li"@, Seq::empty())]),
        MdTag::FootnoteDefinition(label) => Ok(
            seq![start_with("div"@, "id"@, "footnote-"@ + label@)],
        ),
        MdTag::Emphasis => Ok(seq![start("i"@, Seq::empty())]),
        MdTag::Strong => Ok(seq![start("b"@, Seq::empty())]),
        MdTag::Strikethrough => Ok(seq![start("s"@, Seq::empty())]),
        MdTag::Link { dest_url, .. } => Ok(seq![start_with("a"@, "href"@, md_href(dest_url@))]),
        MdTag::Image { .. } => Ok(Seq::empty()),
        MdTag::Unsupported(construct) => match construct_element(construct) {
            Some(name) => Ok(seq![start(name, Seq::empty())]),
            None => Err(WriteMdError::Unsupported(construct)),
        },
    }
}

/// The image that stands at `pos`: the event after its opening gives its
/// alternative text, or closes it at once.
pub open spec fn image_events(ev: Seq<MdEvent>, pos: int, destination: Seq<char>) -> Result<
    Seq<XmlOutView>,
    WriteMdError,
> {
    if pos + 1 >= ev.len() {
        Err(WriteMdError::MissingEvent)
    } else {
        match ev[pos + 1] {
            MdEvent::Text(alt) => Ok(
                seq![start("img"@, seq![("src"@, destination), ("alt"@, alt@)])],
            ),
            MdEvent::End(_) => Ok(
                seq![
                    start("img"@, seq![("src"@, destination), ("alt"@, "no-alt"@)]),
                    XmlOutView::EndElement,
                ],
            ),
            _ => Err(WriteMdError::RichImage),
        }
    }
}

/// What the event at `pos` is written as, and how many events it takes: an
/// image takes the event after its opening with it.
pub open spec fn event_events(ev: Seq<MdEvent>, pos: int) -> Result<
    (Seq<XmlOutView>, int),
    WriteMdError,
> {
    match ev[pos] {
        MdEvent::Start(MdTag::Image { dest_url, .. }) => match image_events(ev, pos, dest_url@) {
            Ok(events) => Ok((events, 2)),
            Err(e) => Err(e),
        },
        MdEvent::Start(tag) => match tag_events(tag) {
            Ok(events) => Ok((events, 1)),
            Err(e) => Err(e),
        },
        MdEvent::End(MdTagEnd::HtmlBlock) => Ok((Seq::empty(), 1)),
        MdEvent::End(_) => Ok((seq![XmlOutView::EndElement], 1)),
        MdEvent::Text(text) => Ok((seq![XmlOutView::Characters(text@)], 1)),
        MdEvent::Code(text) => Ok(
            (
                seq![
                    start_with("span"@, "class"@, "code"@),
                    XmlOutView::Characters(text@),
                    XmlOutView::EndElement,
                ],
                1,
            ),
        ),
        MdEvent::Math(_) => Err(WriteMdError::Unsupported(Construct::Math)),
        MdEvent::Html(html) => match html_events(html@) {
            Ok(events) => Ok((events, 1)),
            Err(e) => Err(e),
        },
        MdEvent::FootnoteReference(label) => Ok(
            (
                seq![
                    start("sup"@, Seq::empty()),
                    start_with("a"@, "href"@, "#footnote-"@ + label@),
                    XmlOutView::Characters(label@),
                    XmlOutView::EndElement,
                    XmlOutView::EndElement,
                ],
                1,
            ),
        ),
        MdEvent::SoftBreak => Ok((empty_element("br"@), 1)),
        MdEvent::HardBreak => Ok((empty_element("br"@) + empty_element("br"@), 1)),
        MdEvent::Rule => Ok((empty_element("hr"@), 1)),
        MdEvent::TaskListMarker(_) => Ok((Seq::empty(), 1)),
    }
}

/// What the events from `pos` on are written as, after `acc`.
pub open spec fn body_events(ev: Seq<MdEvent>, pos: int, acc: Seq<XmlOutView>) -> Result<
    Seq<XmlOutView>,
    WriteMdError,
>
    decreases ev.len() - pos,
{
    if pos < 0 || pos >= ev.len() {
        Ok(acc)
    } else {
        match event_events(ev, pos) {
            Err(e) => Err(e),
            Ok((events, taken)) => if taken >= 1 {
                body_events(ev, pos + taken, acc + events)
            } else {
                Err(WriteMdError::MissingEvent)
            },
        }
    }
}

/// The body that a stream of events is written as.
pub open spec fn md_events(ev: Seq<MdEvent>) -> Result<Seq<XmlOutView>, WriteMdError> {
    match body_events(ev, 0, seq![start("body"@, Seq::empty())]) {
        Ok(events) => Ok(events.push(XmlOutView::EndElement)),
        Err(e) => Err(e),
    }
}

fn start_of(name: &str, attrs: Vec<(String, String)>) -> (event: XmlOut)
    ensures
        event@ == start(name@, pair_views(attrs@)),
{
    let namespaces = no_attrs();
    XmlOut::StartElement { name: String::from_str(name), attrs, namespaces }
}

fn copy_pairs(pairs: &Vec<(String, String)>) -> (r: Vec<(String, String)>)
    ensures
        pair_views(r@) == pair_views(pairs@),
{
    let mut r: Vec<(String, String)> = Vec::new();
    let mut i: usize = 0;
    while i < pairs.len()
        invariant
            i <= pairs.len(),
            r@.len() == i,
            forall|j: int| 0 <= j < i ==> r@[j].0@ == pairs@[j].0@ && r@[j].1@ == pairs@[j].1@,
        decreases pairs.len() - i,
    {
        r.push((pairs[i].0.clone(), pairs[i].1.clone()));
        i += 1;
    }
    assert(pair_views(r@) =~= pair_views(pairs@));
    r
}

/// Where a link points.
pub fn md_href_of(destination: &str) -> (href: String)
    ensures
        href@ == md_href(destination@),
{
    let v = chars_of(destination);
    assert(v@.subrange(0, v.len() as int) == v@);
    if position_of(&v, 0, v.len(), ':') < v.len() {
        String::from_str(destination)
    } else {
        href_of(destination)
    }
}

fn markup_to_events(tokens: &Vec<XmlToken>) -> (r: Result<Vec<XmlOut>, WriteMdError>)
    ensures
        match r {
            Ok(events) => markup_events(tokens@) == Ok::<_, WriteMdError>(out_views(events@)),
            Err(e) => markup_events(tokens@) == Err::<Seq<XmlOutView>, _>(e),
        },
{
    if tokens.len() == 0 {
        return Err(WriteMdError::InvalidMarkup);
    }
    match &tokens[0] {
        XmlToken::Invalid => {
            return Err(WriteMdError::InvalidMarkup);
        },
        _ => {},
    }
    if tokens.len() < 2 {
        return Err(WriteMdError::InvalidMarkup);
    }
    let first = match &tokens[1] {
        XmlToken::Invalid => {
            return Err(WriteMdError::InvalidMarkup);
        },
        XmlToken::StartElement { name, attrs } => start_of(name.as_str(), copy_pairs(attrs)),
        XmlToken::CData(text) => XmlOut::CData(text.clone()),
        XmlToken::Comment(text) => XmlOut::Comment(text.clone()),
        _ => {
            return Err(WriteMdError::UnexpectedMarkup);
        },
    };
    let mut events: Vec<XmlOut> = Vec::new();
    events.push(first);
    assert(out_views(events@) =~= seq![first@]);
    if tokens.len() > 2 {
        match &tokens[2] {
            XmlToken::EndElement { name } => {
                let end = XmlOut::EndNamed(name.clone());
                events.push(end);
                assert(out_views(events@) =~= seq![first@] + seq![end@]);
            },
            _ => {
                assert(out_views(events@) =~= seq![first@] + Seq::<XmlOutView>::empty());
            },
        }
    } else {
        assert(out_views(events@) =~= seq![first@] + Seq::<XmlOutView>::empty());
    }
    Ok(events)
}

fn html_to_events(html: &str) -> (r: Result<Vec<XmlOut>, WriteMdError>)
    ensures
        match r {
            Ok(events) => html_events(html@) == Ok::<_, WriteMdError>(out_views(events@)),
            Err(e) => html_events(html@) == Err::<Seq<XmlOutView>, _>(e),
        },
{
    let v = chars_of(html);
    let n = v.len();
    assert(v@.subrange(0, n as int) == v@);
    let closing = vec!['<', '/'];
    assert(closing@ =~= seq!['<', '/']);
    if has_prefix(&v, 0, n, &closing) {
        let end = vec!['>'];
        assert(end@ =~= seq!['>']);
        assert(v@.skip(2) == v@.subrange(2, n as int));
        if has_suffix(&v, 2, n, &end) {
            assert(v@.subrange(2, n as int).take(n - 2 - 1) == v@.subrange(2, n - 1));
            let name = string_of(&v, 2, n - 1);
            let inner = chars_of(name.as_str());
            let (from, to) = trim_bounds(&inner);
            let mut events: Vec<XmlOut> = Vec::new();
            let event = XmlOut::EndNamed(string_of(&inner, from, to));
            events.push(event);
            assert(out_views(events@) =~= seq![event@]);
            return Ok(events);
        }
        return Err(WriteMdError::NotAnElement);
    }
    let comment = vec!['<', '!', '-', '-'];
    assert(comment@ =~= seq!['<', '!', '-', '-']);
    if has_prefix(&v, 0, n, &comment) {
        let events: Vec<XmlOut> = Vec::new();
        assert(out_views(events@) =~= Seq::<XmlOutView>::empty());
        return Ok(events);
    }
    let tokens = read_xml_tokens(html);
    markup_to_events(&tokens)
}

fn empty_element_of(name: &str) -> (events: Vec<XmlOut>)
    ensures
        out_views(events@) == empty_element(name@),
{
    let mut events: Vec<XmlOut> = Vec::new();
    let open = start_of(name, no_attrs());
    events.push(open);
    events.push(XmlOut::EndElement);
    assert(out_views(events@) =~= empty_element(name@));
    events
}

fn tag_to_events(tag: &MdTag) -> (r: Result<Vec<XmlOut>, WriteMdError>)
    ensures
        match r {
            Ok(events) => tag_events(*tag) == Ok::<_, WriteMdError>(out_views(events@)),
            Err(e) => tag_events(*tag) == Err::<Seq<XmlOutView>, _>(e),
        },
{
    match tag {
        MdTag::Paragraph => Ok(one_event(start_of("p", no_attrs()))),
        MdTag::Heading { level, id } => {
            let attrs = match id {
                Some(id) => one_attr("id", id.as_str()),
                None => no_attrs(),
            };
            Ok(one_event(start_of(heading_tag(*level), attrs)))
        },
        MdTag::BlockQuote => Ok(one_event(start_of("blockquote", no_attrs()))),
        MdTag::CodeBlock(_) => Ok(one_event(start_of("div", one_attr("class", "code")))),
        MdTag::HtmlBlock => Ok(no_events()),
        MdTag::List(None) => Ok(one_event(start_of("ul", no_attrs()))),
        MdTag::List(Some(first)) => {
            let number = decimal_string(*first);
            Ok(one_event(start_of("ol", one_attr("start", number.as_str()))))
        },
        MdTag::Item => Ok(one_event(start_of("li", no_attrs()))),
        MdTag::FootnoteDefinition(label) => {
            let mut id = String::from_str("footnote-");
            id.append(label.as_str());
            Ok(one_event(start_of("div", one_attr("id", id.as_str()))))
        },
        MdTag::Emphasis => Ok(one_event(start_of("i", no_attrs()))),
        MdTag::Strong => Ok(one_event(start_of("b", no_attrs()))),
        MdTag::Strikethrough => Ok(one_event(start_of("s", no_attrs()))),
        MdTag::Link { dest_url, title: _ } => {
            let href = md_href_of(dest_url.as_str());
            Ok(one_event(start_of("a", one_attr("href", href.as_str()))))
        },
        MdTag::Image { dest_url: _, title: _ } => Ok(no_events()),
        MdTag::Unsupported(construct) => match construct {
            Construct::Table => Ok(one_event(start_of("table", no_attrs()))),
            Construct::TableHead => Ok(one_event(start_of("thead", no_attrs()))),
            Construct::TableRow => Ok(one_event(start_of("tr", no_attrs()))),
            Construct::TableCell => Ok(one_event(start_of("td", no_attrs()))),
            other => Err(WriteMdError::Unsupported(*other)),
        },
    }
}

fn image_to_events(ev: &Vec<MdEvent>, pos: usize, destination: &str) -> (r: Result<
    Vec<XmlOut>,
    WriteMdError,
>)
    requires
        pos < ev.len(),
    ensures
        match r {
            Ok(events) => image_events(ev@, pos as int, destination@) == Ok::<_, WriteMdError>(
                out_views(events@),
            ),
            Err(e) => image_events(ev@, pos as int, destination@) == Err::<Seq<XmlOutView>, _>(
                e,
            ),
        },
{
    if pos + 1 >= ev.len() {
        return Err(WriteMdError::MissingEvent);
    }
    match &ev[pos + 1] {
        MdEvent::Text(alt) => {
            let mut attrs = one_attr("src", destination);
            add_attr(&mut attrs, "alt", alt.as_str());
            assert(pair_views(attrs@) =~= seq![("src"@, destination@), ("alt"@, alt@)]);
            Ok(one_event(start_of("img", attrs)))
        },
        MdEvent::End(_) => {
            let mut attrs = one_attr("src", destination);
            add_attr(&mut attrs, "alt", "no-alt");
            assert(pair_views(attrs@) =~= seq![("src"@, destination@), ("alt"@, "no-alt"@)]);
            let open = start_of("img", attrs);
            let mut events: Vec<XmlOut> = Vec::new();
            events.push(open);
            events.push(XmlOut::EndElement);
            assert(out_views(events@) =~= seq![open@, XmlOutView::EndElement]);
            Ok(events)
        },
        _ => Err(WriteMdError::RichImage),
    }
}

fn event_to_events(ev: &Vec<MdEvent>, pos: usize) -> (r: Result<(Vec<XmlOut>, usize), WriteMdError>)
    requires
        pos < ev.len(),
    ensures
        match r {
            Ok((events, taken)) => event_events(ev@, pos as int) == Ok::<_, WriteMdError>(
                (out_views(events@), taken as int),
            ) && 1 <= taken <= 2,
            Err(e) => event_events(ev@, pos as int) == Err::<(Seq<XmlOutView>, int), _>(e),
        },
{
    match &ev[pos] {
        MdEvent::Start(MdTag::Image { dest_url, title: _ }) => {
            match image_to_events(ev, pos, dest_url.as_str()) {
                Ok(events) => Ok((events, 2)),
                Err(e) => Err(e),
            }
        },
        MdEvent::Start(tag) => match tag_to_events(tag) {
            Ok(events) => Ok((events, 1)),
            Err(e) => Err(e),
        },
        MdEvent::End(MdTagEnd::HtmlBlock) => Ok((no_events(), 1)),
        MdEvent::End(_) => Ok((one_event(XmlOut::EndElement), 1)),
        MdEvent::Text(text) => Ok((one_event(XmlOut::Characters(text.clone())), 1)),
        MdEvent::Code(text) => {
            let open = start_of("span", one_attr("class", "code"));
            let body = XmlOut::Characters(text.clone());
            let mut events: Vec<XmlOut> = Vec::new();
            events.push(open);
            events.push(body);
            events.push(XmlOut::EndElement);
            assert(out_views(events@) =~= seq![open@, body@, XmlOutView::EndElement]);
            Ok((events, 1))
        },
        MdEvent::Math(_) => Err(WriteMdError::Unsupported(Construct::Math)),
        MdEvent::Html(html) => match html_to_events(html.as_str()) {
            Ok(events) => Ok((events, 1)),
            Err(e) => Err(e),
        },
        MdEvent::FootnoteReference(label) => {
            let mut href = String::from_str("#footnote-");
            href.append(label.as_str());
            let sup = start_of("sup", no_attrs());
            let anchor = start_of("a", one_attr("href", href.as_str()));
            let body = XmlOut::Characters(label.clone());
            let mut events: Vec<XmlOut> = Vec::new();
            events.push(sup);
            events.push(anchor);
            events.push(body);
            events.push(XmlOut::EndElement);
            events.push(XmlOut::EndElement);
            assert(out_views(events@) =~= seq![
                sup@,
                anchor@,
                body@,
                XmlOutView::EndElement,
                XmlOutView::EndElement,
            ]);
            Ok((events, 1))
        },
        MdEvent::SoftBreak => Ok((empty_element_of("br"), 1)),
        MdEvent::HardBreak => {
            let mut events = empty_element_of("br");
            append_events(&mut events, empty_element_of("br"));
            Ok((events, 1))
        },
        MdEvent::Rule => Ok((empty_element_of("hr"), 1)),
        MdEvent::TaskListMarker(_) => Ok((no_events(), 1)),
    }
}

/// Adds to `out` the body that a stream of events is written as: each
/// container becomes an element, each text its characters. A stream that
/// cannot be written leaves `out` as it is.
pub fn write_md(events: &Vec<MdEvent>, out: &mut Vec<XmlOut>) -> (r: Result<(), WriteMdError>)
    ensures
        match r {
            Ok(()) => md_events(events@) matches Ok(body) && out_views(final(out)@) == out_views(
                old(out)@,
            ) + body,
            Err(e) => md_events(events@) == Err::<Seq<XmlOutView>, _>(e) && *final(out) == *old(
                out,
            ),
        },
{
    let mut body = one_event(start_of("body", no_attrs()));
    let mut pos: usize = 0;
    while pos < events.len()
        invariant
            pos <= events.len(),
            body_events(events@, 0, seq![start("body"@, Seq::empty())]) == body_events(
                events@,
                pos as int,
                out_views(body@),
            ),
        decreases events.len() - pos,
    {
        match event_to_events(events, pos) {
            Err(e) => {
                return Err(e);
            },
            Ok((more, taken)) => {
                append_events(&mut body, more);
                if taken > events.len() - pos {
                    pos = events.len();
                } else {
                    pos += taken;
                }
            },
        }
    }
    let ghost was = out_views(body@);
    body.push(XmlOut::EndElement);
    assert(out_views(body@) =~= was.push(XmlOutView::EndElement));
    append_events(out, body);
    Ok(())
}


impl WriteMdError {
    /// What the error says.
    pub open spec fn message(&self) -> Seq<char> {
        match self {
            WriteMdError::NotAnElement => "Not an html element"@,
            WriteMdError::InvalidMarkup => "raw markup that cannot be read"@,
            WriteMdError::UnexpectedMarkup => "raw markup that is no element"@,
            WriteMdError::RichImage => "Can only include text in an image tag"@,
            WriteMdError::MissingEvent => "the stream ends after the opening of an image"@,
            WriteMdError::Unsupported(construct) => "unsupported construct: "@ + construct.name(),
        }
    }

    /// What the error says.
    pub fn to_string(&self) -> (text: String)
        ensures
            text@ == self.message(),
    {
        match self {
            WriteMdError::NotAnElement => String::from_str("Not an html element"),
            WriteMdError::InvalidMarkup => String::from_str("raw markup that cannot be read"),
            WriteMdError::UnexpectedMarkup => String::from_str("raw markup that is no element"),
            WriteMdError::RichImage => String::from_str("Can only include text in an image tag"),
            WriteMdError::MissingEvent => String::from_str(
                "the stream ends after the opening of an image",
            ),
            WriteMdError::Unsupported(construct) => {
                let mut text = String::from_str("unsupported construct: ");
                text.append(construct.as_str());
                text
            },
        }
    }
}

} // verus!
