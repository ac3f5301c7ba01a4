//! Documents as sequences of XML events, and chapters written as XHTML.

pub mod balance;

use crate::bookir::nav::BookChapter;
use crate::bookir::{
    rich_views, Attributes, BreakType, HeadingLevel, InlineXhtml, InlineXhtmlView, Link, LinkView,
    ListItem, ListStyle, RichText, RichTextView, XmlNode,
};
use crate::text::{
    chars_of, decimal, decimal_string, has_suffix, pair_views, string_of, strip_suffix, Pairs,
};
use vstd::prelude::*;
use vstd::string::*;
use xml::writer::Error as Refusal;

verus! {

/// The namespace of XHTML.
pub const NS_XHTML_URI: &'static str = "http://www.w3.org/1999/xhtml";

/// The media type of an XHTML document.
pub const XHTML_MEDIA: &'static str = "application/xhtml+xml";

/// The version of XML that a document declares.
#[derive(Clone, Copy, Debug, PartialEq, Eq, Hash)]
pub enum XmlVersion {
    Version10,
    Version11,
}

/// One event handed to an XML writer.
#[derive(Clone, Debug, PartialEq, Eq)]
pub enum XmlOut {
    /// The XML declaration; the encoding is always UTF-8.
    StartDocument(XmlVersion),
    /// An opening tag, with its attributes and with the namespaces it
    /// declares, each a prefix and a URI.
    StartElement { name: String, attrs: Vec<(String, String)>, namespaces: Vec<(String, String)> },
    /// The closing of the innermost open element.
    EndElement,
    /// The closing of the innermost open element, which must carry this
    /// name.
    EndNamed(String),
    Characters(String),
    CData(String),
    Comment(String),
}

/// One event of a document, as a value of the model.
pub enum XmlOutView {
    StartDocument(XmlVersion),
    StartElement { name: Seq<char>, attrs: Pairs, namespaces: Pairs },
    EndElement,
    EndNamed(Seq<char>),
    Characters(Seq<char>),
    CData(Seq<char>),
    Comment(Seq<char>),
}

impl View for XmlOut {
    type V = XmlOutView;

    open spec fn view(&self) -> XmlOutView {
        match self {
            XmlOut::StartDocument(version) => XmlOutView::StartDocument(*version),
            XmlOut::StartElement { name, attrs, namespaces } => XmlOutView::StartElement {
                name: name@,
                attrs: pair_views(attrs@),
                namespaces: pair_views(namespaces@),
            },
            XmlOut::EndElement => XmlOutView::EndElement,
            XmlOut::EndNamed(name) => XmlOutView::EndNamed(name@),
            XmlOut::Characters(text) => XmlOutView::Characters(text@),
            XmlOut::CData(text) => XmlOutView::CData(text@),
            XmlOut::Comment(text) => XmlOutView::Comment(text@),
        }
    }
}

/// The model of each event of `s`, in order.
pub open spec fn out_views(s: Seq<XmlOut>) -> Seq<XmlOutView> {
    Seq::new(s.len(), |i: int| s[i]@)
}

/// An opening tag without namespaces.
pub open spec fn start(name: Seq<char>, attrs: Pairs) -> XmlOutView {
    XmlOutView::StartElement { name, attrs, namespaces: Seq::empty() }
}

/// Adds one event to `out`.
pub fn emit(out: &mut Vec<XmlOut>, event: XmlOut)
    ensures
        out_views(final(out)@) == out_views(old(out)@).push(event@),
{
    out.push(event);
    assert(out_views(out@) =~= out_views(old(out)@).push(event@));
}

/// Adds to `out` the opening tag `name` with `attrs` and no namespaces.
pub fn emit_start(out: &mut Vec<XmlOut>, name: &str, attrs: Vec<(String, String)>)
    ensures
        out_views(final(out)@) == out_views(old(out)@).push(start(name@, pair_views(attrs@))),
{
    let namespaces: Vec<(String, String)> = Vec::new();
    assert(pair_views(namespaces@) =~= Seq::<(Seq<char>, Seq<char>)>::empty());
    emit(out, XmlOut::StartElement { name: String::from_str(name), attrs, namespaces });
}

/// Adds the closing of the innermost open element to `out`.
pub fn emit_end(out: &mut Vec<XmlOut>)
    ensures
        out_views(final(out)@) == out_views(old(out)@).push(XmlOutView::EndElement),
{
    emit(out, XmlOut::EndElement);
}

/// Adds character data to `out`.
pub fn emit_text(out: &mut Vec<XmlOut>, text: &str)
    ensures
        out_views(final(out)@) == out_views(old(out)@).push(XmlOutView::Characters(text@)),
{
    emit(out, XmlOut::Characters(String::from_str(text)));
}

/// A list that holds the one attribute `name` with `value`.
pub fn one_attr(name: &str, value: &str) -> (attrs: Vec<(String, String)>)
    ensures
        pair_views(attrs@) == seq![(name@, value@)],
{
    let mut attrs: Vec<(String, String)> = Vec::new();
    attrs.push((String::from_str(name), String::from_str(value)));
    assert(pair_views(attrs@) =~= seq![(name@, value@)]);
    attrs
}

/// Adds the attribute `name` with `value` at the end of `attrs`.
pub fn add_attr(attrs: &mut Vec<(String, String)>, name: &str, value: &str)
    ensures
        pair_views(final(attrs)@) == pair_views(old(attrs)@).push((name@, value@)),
{
    attrs.push((String::from_str(name), String::from_str(value)));
    assert(pair_views(attrs@) =~= pair_views(old(attrs)@).push((name@, value@)));
}

/// Why an XML writer refused an event.
#[derive(Clone, Debug, PartialEq, Eq)]
pub enum XmlWriteError {
    /// Writing to the underlying sink failed.
    Io(IoError),
    DocumentStartAlreadyEmitted,
    LastElementNameNotAvailable,
    EndElementNameIsNotEqualToLastStartElementName,
    EndElementNameIsNotSpecified,
}

/// The kind of an I/O error, as far as writing a document tells kinds
/// apart.
#[derive(Clone, Copy, Debug, PartialEq, Eq, Hash)]
pub enum IoErrorKind {
    InvalidInput,
    InvalidData,
    StorageFull,
    Other,
}

/// A failure of input or output: its kind and what is known of it.
#[derive(Clone, Debug, PartialEq, Eq)]
pub struct IoError {
    pub kind: IoErrorKind,
    pub message: String,
}

/// What is said of a refusal: of a failure of the sink what the failure
/// says, of any other refusal the words of the XML writer.
pub open spec fn refusal_text(e: XmlWriteError) -> Seq<char> {
    match e {
        XmlWriteError::Io(io) => io.message@,
        XmlWriteError::DocumentStartAlreadyEmitted => {
            "emitter error: document start event has already been emitted"@
        },
        XmlWriteError::LastElementNameNotAvailable => {
            "emitter error: last element name is not available"@
        },
        XmlWriteError::EndElementNameIsNotEqualToLastStartElementName => {
            "emitter error: end element name is not equal to last start element name"@
        },
        XmlWriteError::EndElementNameIsNotSpecified => {
            "emitter error: end element name is not specified and can't be inferred"@
        },
    }
}

/// Prints the error of `xml::writer` that stands for `e` with its
/// `Display`, which writes `emitter error: ` and then a fixed sentence for
/// each kind of refusal. Of a failure of the sink it hands on what the
/// failure says.
#[verifier::external_body]
fn refusal_words(e: &XmlWriteError) -> (text: String)
    ensures
        text@ == refusal_text(*e),
{
    match e {
        XmlWriteError::Io(io) => io.message.clone(),
        XmlWriteError::DocumentStartAlreadyEmitted => Refusal::DocumentStartAlreadyEmitted.to_string(),
        XmlWriteError::LastElementNameNotAvailable => Refusal::LastElementNameNotAvailable.to_string(),
        XmlWriteError::EndElementNameIsNotEqualToLastStartElementName => {
            Refusal::EndElementNameIsNotEqualToLastStartElementName.to_string()
        },
        XmlWriteError::EndElementNameIsNotSpecified => Refusal::EndElementNameIsNotSpecified.to_string(),
    }
}

/// Turns a refusal of the XML writer into a failure of input or output: a
/// failure of the sink is passed on as it is, any other refusal becomes
/// invalid input with the writer's words.
pub fn xml_to_io_error(e: XmlWriteError) -> (io: IoError)
    ensures
        e matches XmlWriteError::Io(inner) ==> io == inner,
        !(e is Io) ==> io.kind == IoErrorKind::InvalidInput && io.message@ == refusal_text(e),
{
    match e {
        XmlWriteError::Io(inner) => inner,
        other => IoError { kind: IoErrorKind::InvalidInput, message: refusal_words(&other) },
    }
}


/// Why a tree of rich text cannot be written as XHTML.
#[derive(Clone, Copy, Debug, PartialEq, Eq, Hash)]
pub enum RenderError {
    /// A link or an image points to a footnote.
    FootnoteLink,
    /// The alternative text of an image holds more than raw text.
    RichAltText,
    /// The tree holds a table.
    Table,
}

/// Adds the events of `more` after those of `out`.
pub fn append_events(out: &mut Vec<XmlOut>, more: Vec<XmlOut>)
    ensures
        out_views(final(out)@) == out_views(old(out)@) + out_views(more@),
{
    let ghost added = more@;
    let mut rest = more;
    out.append(&mut rest);
    assert(out_views(out@) =~= out_views(old(out)@) + out_views(added));
}

/// The ending of a chapter's source file.
pub open spec fn md_suffix() -> Seq<char> {
    seq!['.', 'm', 'd']
}

/// Where a link inside the book points once the chapters are XHTML files: a
/// destination that ends in `.md` ends in `.xhtml` instead.
pub open spec fn chapter_href(destination: Seq<char>) -> Seq<char> {
    match strip_suffix(destination, md_suffix()) {
        Some(stem) => stem + ".xhtml"@,
        None => destination,
    }
}

/// The elements that carry the styles of `style`, outermost first.
pub open spec fn style_names(style: Attributes) -> Seq<Seq<char>> {
    (if style.strikethrough {
        seq!["s"@]
    } else {
        Seq::empty()
    }) + (if style.underline {
        seq!["u"@]
    } else {
        Seq::empty()
    }) + (if style.bold {
        seq!["b"@]
    } else {
        Seq::empty()
    }) + (if style.italics {
        seq!["i"@]
    } else {
        Seq::empty()
    })
}

/// One opening tag without attributes for each of `names`.
pub open spec fn starts(names: Seq<Seq<char>>) -> Seq<XmlOutView> {
    Seq::new(names.len(), |i: int| start(names[i], Seq::empty()))
}

/// `n` closings.
pub open spec fn ends(n: nat) -> Seq<XmlOutView> {
    Seq::new(n, |i: int| XmlOutView::EndElement)
}

/// The element `name` with `attrs` around `inner`.
pub open spec fn wrapped(name: Seq<char>, attrs: Pairs, inner: Seq<XmlOutView>) -> Seq<
    XmlOutView,
> {
    seq![start(name, attrs)] + inner + seq![XmlOutView::EndElement]
}

/// The name of the element that a heading of `level` is written as.
pub open spec fn heading_name(level: HeadingLevel) -> Seq<char> {
    match level {
        HeadingLevel::H1 => "h1"@,
        HeadingLevel::H2 => "h2"@,
        HeadingLevel::H3 => "h3"@,
        HeadingLevel::H4 => "h4"@,
        HeadingLevel::H5 => "h5"@,
        HeadingLevel::H6 => "h6"@,
    }
}

/// The alternative text that the first `n` of `children` make: they must be
/// raw text, which is joined.
pub open spec fn alt_text(children: Seq<RichTextView>, n: int) -> Result<Seq<char>, RenderError>
    decreases n,
{
    if n <= 0 {
        Ok(Seq::empty())
    } else {
        match alt_text(children, n - 1) {
            Err(e) => Err(e),
            Ok(text) => match children[n - 1] {
                RichTextView::RawText(piece) => Ok(text + piece),
                _ => Err(RenderError::RichAltText),
            },
        }
    }
}

/// The events of the first `n` of `nodes`, or the first error among them.
pub open spec fn nodes_events(nodes: Seq<RichTextView>, n: int) -> Result<
    Seq<XmlOutView>,
    RenderError,
>
    decreases nodes, n,
{
    if n <= 0 || n > nodes.len() {
        Ok(Seq::empty())
    } else {
        match nodes_events(nodes, n - 1) {
            Err(e) => Err(e),
            Ok(events) => match node_events(nodes[n - 1]) {
                Err(e) => Err(e),
                Ok(more) => Ok(events + more),
            },
        }
    }
}

/// The events of every node of `nodes`.
pub open spec fn all_events(nodes: Seq<RichTextView>) -> Result<Seq<XmlOutView>, RenderError>
    decreases nodes, nodes.len() + 1,
{
    nodes_events(nodes, nodes.len() as int)
}

/// One `li` for each of the first `n` of `items`.
pub open spec fn items_events(items: Seq<Seq<RichTextView>>, n: int) -> Result<
    Seq<XmlOutView>,
    RenderError,
>
    decreases items, n,
{
    if n <= 0 || n > items.len() {
        Ok(Seq::empty())
    } else {
        match items_events(items, n - 1) {
            Err(e) => Err(e),
            Ok(events) => match all_events(items[n - 1]) {
                Err(e) => Err(e),
                Ok(inner) => Ok(events + wrapped("li"@, Seq::empty(), inner)),
            },
        }
    }
}

/// The anchor that a link makes: the destination, turned to the chapter's
/// XHTML file where the link stays inside the book.
pub open spec fn link_events(link: LinkView, internal: bool) -> Result<
    Seq<XmlOutView>,
    RenderError,
>
    decreases link, 0int,
{
    match link {
        LinkView::Text { children, destination, .. } => match all_events(children) {
            Err(e) => Err(e),
            Ok(inner) => Ok(
                wrapped(
                    "a"@,
                    seq![
                        (
                            "href"@,
                            if internal {
                                chapter_href(destination)
                            } else {
                                destination
                            },
                        ),
                    ],
                    inner,
                ),
            ),
        },
        LinkView::Footnote(_) => Err(RenderError::FootnoteLink),
    }
}

/// The image that a link makes, with its raw text as alternative text.
pub open spec fn image_events(link: LinkView) -> Result<Seq<XmlOutView>, RenderError>
    decreases link, 0int,
{
    match link {
        LinkView::Text { children, destination, .. } => match alt_text(
            children,
            children.len() as int,
        ) {
            Err(e) => Err(e),
            Ok(alt) => match all_events(children) {
                Err(e) => Err(e),
                Ok(inner) => Ok(wrapped("img"@, seq![("src"@, destination), ("alt"@, alt)], inner)),
            },
        },
        LinkView::Footnote(_) => Err(RenderError::FootnoteLink),
    }
}

/// The XML events that write one node of rich text as XHTML.
pub open spec fn node_events(node: RichTextView) -> Result<Seq<XmlOutView>, RenderError>
    decreases node, 0int,
{
    match node {
        RichTextView::RawText(text) => Ok(seq![XmlOutView::Characters(text)]),
        RichTextView::Xhtml(InlineXhtmlView::CData(text)) => Ok(seq![XmlOutView::CData(text)]),
        RichTextView::Xhtml(InlineXhtmlView::Comment(text)) => Ok(seq![XmlOutView::Comment(text)]),
        RichTextView::Xhtml(InlineXhtmlView::Node(elem, Some(children))) => match all_events(
            children,
        ) {
            Err(e) => Err(e),
            Ok(inner) => Ok(wrapped(elem.name, elem.attrs, inner)),
        },
        RichTextView::Xhtml(InlineXhtmlView::Node(elem, None)) => Ok(
            wrapped(elem.name, elem.attrs, Seq::empty()),
        ),
        RichTextView::Stylised(style, children) => match all_events(children) {
            Err(e) => Err(e),
            Ok(inner) => Ok(
                starts(style_names(style)) + inner + ends(style_names(style).len()),
            ),
        },
        RichTextView::Paragraph(children) => match all_events(children) {
            Err(e) => Err(e),
            Ok(inner) => Ok(wrapped("p"@, Seq::empty(), inner)),
        },
        RichTextView::InlineCode(code) => Ok(
            wrapped("code"@, Seq::empty(), seq![XmlOutView::CData(code)]),
        ),
        RichTextView::CodeBlock { content, .. } => Ok(
            wrapped(
                "div"@,
                seq![("style"@, "font-family:monospace;background-color: #c9c9c9;"@)],
                seq![XmlOutView::CData(content)],
            ),
        ),
        RichTextView::InternalLink(link) => link_events(link, true),
        RichTextView::ExternalLink(link) => link_events(link, false),
        RichTextView::InternalImage(link) => image_events(link),
        RichTextView::ExternalImage(link) => image_events(link),
        RichTextView::Heading { level, text, id } => Ok(
            wrapped(heading_name(level), seq![("id"@, id)], seq![XmlOutView::Characters(text)]),
        ),
        RichTextView::TextBreak(BreakType::Rule) => Ok(wrapped("hr"@, Seq::empty(), Seq::empty())),
        RichTextView::TextBreak(_) => Ok(wrapped("br"@, Seq::empty(), Seq::empty())),
        RichTextView::List { style, items } => match items_events(items, items.len() as int) {
            Err(e) => Err(e),
            Ok(inner) => match style {
                ListStyle::Ordered(n) => Ok(
                    wrapped("ol"@, seq![("start"@, decimal(n as nat))], inner),
                ),
                ListStyle::Unordered => Ok(wrapped("ul"@, Seq::empty(), inner)),
            },
        },
        RichTextView::BlockQuote(children) => match all_events(children) {
            Err(e) => Err(e),
            Ok(inner) => Ok(wrapped("bq"@, Seq::empty(), inner)),
        },
        RichTextView::Table(_) => Err(RenderError::Table),
    }
}

/// The document that writes a chapter: the declaration, then `html` in the
/// XHTML namespace around `body` around the chapter's nodes.
pub open spec fn chapter_events(content: Seq<RichTextView>) -> Result<Seq<XmlOutView>, RenderError> {
    match all_events(content) {
        Err(e) => Err(e),
        Ok(inner) => Ok(
            seq![
                XmlOutView::StartDocument(XmlVersion::Version11),
                XmlOutView::StartElement {
                    name: "html"@,
                    attrs: Seq::empty(),
                    namespaces: seq![(""@, "http://www.w3.org/1999/xhtml"@)],
                },
                start("body"@, Seq::empty()),
            ] + inner + seq![XmlOutView::EndElement, XmlOutView::EndElement],
        ),
    }
}


/// An error among the first nodes is the error of the whole sequence.
pub proof fn lemma_nodes_error(nodes: Seq<RichTextView>, first: int, n: int)
    requires
        0 < first <= n <= nodes.len(),
        nodes_events(nodes, first) is Err,
    ensures
        nodes_events(nodes, n) == nodes_events(nodes, first),
    decreases n - first,
{
    if first < n {
        lemma_nodes_error(nodes, first, n - 1);
    }
}

/// An error among the first items is the error of the whole list.
pub proof fn lemma_items_error(items: Seq<Seq<RichTextView>>, first: int, n: int)
    requires
        0 < first <= n <= items.len(),
        items_events(items, first) is Err,
    ensures
        items_events(items, n) == items_events(items, first),
    decreases n - first,
{
    if first < n {
        lemma_items_error(items, first, n - 1);
    }
}

/// An error among the first children is the error of the whole text.
pub proof fn lemma_alt_error(children: Seq<RichTextView>, first: int, n: int)
    requires
        0 < first <= n,
        alt_text(children, first) is Err,
    ensures
        alt_text(children, n) == alt_text(children, first),
    decreases n - first,
{
    if first < n {
        lemma_alt_error(children, first, n - 1);
    }
}

pub(crate) fn heading_tag(level: HeadingLevel) -> (name: &'static str)
    ensures
        name@ == heading_name(level),
{
    match level {
        HeadingLevel::H1 => "h1",
        HeadingLevel::H2 => "h2",
        HeadingLevel::H3 => "h3",
        HeadingLevel::H4 => "h4",
        HeadingLevel::H5 => "h5",
        HeadingLevel::H6 => "h6",
    }
}

/// Where a link inside the book points once the chapters are XHTML files.
pub fn href_of(destination: &str) -> (href: String)
    ensures
        href@ == chapter_href(destination@),
{
    let v = chars_of(destination);
    let n = v.len();
    let suffix = vec!['.', 'm', 'd'];
    assert(suffix@ =~= md_suffix());
    assert(v@.subrange(0, n as int) == v@);
    if has_suffix(&v, 0, n, &suffix) {
        assert(v@.take(n - 3) == v@.subrange(0, n - 3));
        let mut href = string_of(&v, 0, n - 3);
        href.append(".xhtml");
        href
    } else {
        String::from_str(destination)
    }
}

/// The events `inner` inside the element `name` with `attrs`.
fn wrap(name: &str, attrs: Vec<(String, String)>, inner: Vec<XmlOut>) -> (out: Vec<XmlOut>)
    ensures
        out_views(out@) == wrapped(name@, pair_views(attrs@), out_views(inner@)),
{
    let mut out: Vec<XmlOut> = Vec::new();
    assert(out_views(out@) =~= Seq::<XmlOutView>::empty());
    emit_start(&mut out, name, attrs);
    append_events(&mut out, inner);
    emit_end(&mut out);
    assert(out_views(out@) =~= wrapped(name@, pair_views(attrs@), out_views(inner@)));
    out
}

/// No attributes.
pub(crate) fn no_attrs() -> (attrs: Vec<(String, String)>)
    ensures
        pair_views(attrs@) == Seq::<(Seq<char>, Seq<char>)>::empty(),
{
    let attrs: Vec<(String, String)> = Vec::new();
    assert(pair_views(attrs@) =~= Seq::<(Seq<char>, Seq<char>)>::empty());
    attrs
}

/// No events.
pub(crate) fn no_events() -> (out: Vec<XmlOut>)
    ensures
        out_views(out@) == Seq::<XmlOutView>::empty(),
{
    let out: Vec<XmlOut> = Vec::new();
    assert(out_views(out@) =~= Seq::<XmlOutView>::empty());
    out
}

/// One event.
pub(crate) fn one_event(event: XmlOut) -> (out: Vec<XmlOut>)
    ensures
        out_views(out@) == seq![event@],
{
    let mut out: Vec<XmlOut> = Vec::new();
    out.push(event);
    assert(out_views(out@) =~= seq![event@]);
    out
}

fn render_nodes(nodes: &Vec<RichText>) -> (r: Result<Vec<XmlOut>, RenderError>)
    ensures
        match r {
            Ok(events) => all_events(rich_views(nodes@)) == Ok::<_, RenderError>(
                out_views(events@),
            ),
            Err(e) => all_events(rich_views(nodes@)) == Err::<Seq<XmlOutView>, _>(e),
        },
    decreases nodes, 1int,
{
    let ghost views = rich_views(nodes@);
    let mut out = no_events();
    let mut i: usize = 0;
    proof {
        if nodes.len() > 0 {
            crate::bookir::lemma_rich_views_index(nodes@, 0);
        } else {
            assert(views =~= Seq::<RichTextView>::empty()) by {
                reveal_with_fuel(rich_views, 2);
            }
        }
    }
    while i < nodes.len()
        invariant
            i <= nodes.len(),
            views == rich_views(nodes@),
            views.len() == nodes.len(),
            nodes_events(views, i as int) == Ok::<_, RenderError>(out_views(out@)),
        decreases nodes.len() - i,
    {
        proof {
            crate::bookir::lemma_rich_views_index(nodes@, i as int);
        }
        match render_node(&nodes[i]) {
            Err(e) => {
                proof {
                    lemma_nodes_error(views, i + 1, views.len() as int);
                }
                return Err(e);
            },
            Ok(more) => {
                append_events(&mut out, more);
            },
        }
        i += 1;
    }
    Ok(out)
}

fn render_items(items: &Vec<ListItem>) -> (r: Result<Vec<XmlOut>, RenderError>)
    ensures
        match r {
            Ok(events) => items_events(
                crate::bookir::item_views(items@),
                items.len() as int,
            ) == Ok::<_, RenderError>(out_views(events@)),
            Err(e) => items_events(crate::bookir::item_views(items@), items.len() as int)
                == Err::<Seq<XmlOutView>, _>(e),
        },
    decreases items, 1int,
{
    let ghost views = crate::bookir::item_views(items@);
    let mut out = no_events();
    let mut i: usize = 0;
    proof {
        if items.len() > 0 {
            crate::bookir::lemma_item_views_index(items@, 0);
        }
    }
    while i < items.len()
        invariant
            i <= items.len(),
            views == crate::bookir::item_views(items@),
            items.len() > 0 ==> views.len() == items.len(),
            items_events(views, i as int) == Ok::<_, RenderError>(out_views(out@)),
        decreases items.len() - i,
    {
        proof {
            crate::bookir::lemma_item_views_index(items@, i as int);
        }
        match render_nodes(&items[i].0) {
            Err(e) => {
                proof {
                    lemma_items_error(views, i + 1, views.len() as int);
                }
                return Err(e);
            },
            Ok(inner) => {
                let item = wrap("li", no_attrs(), inner);
                append_events(&mut out, item);
            },
        }
        i += 1;
    }
    Ok(out)
}

fn render_link(link: &Link, internal: bool) -> (r: Result<Vec<XmlOut>, RenderError>)
    ensures
        match r {
            Ok(events) => link_events(link@, internal) == Ok::<_, RenderError>(
                out_views(events@),
            ),
            Err(e) => link_events(link@, internal) == Err::<Seq<XmlOutView>, _>(e),
        },
    decreases link, 0int,
{
    match link {
        Link::Text { title: _, elems, dest_url } => {
            match render_nodes(elems) {
                Err(e) => Err(e),
                Ok(inner) => {
                    let href = if internal {
                        href_of(dest_url.as_str())
                    } else {
                        dest_url.clone()
                    };
                    Ok(wrap("a", one_attr("href", href.as_str()), inner))
                },
            }
        },
        Link::Footnote(_) => Err(RenderError::FootnoteLink),
    }
}

fn alt_of(elems: &Vec<RichText>) -> (r: Result<String, RenderError>)
    ensures
        match r {
            Ok(alt) => alt_text(rich_views(elems@), elems.len() as int) == Ok::<_, RenderError>(
                alt@,
            ),
            Err(e) => alt_text(rich_views(elems@), elems.len() as int) == Err::<Seq<char>, _>(e),
        },
{
    let ghost views = rich_views(elems@);
    let mut alt = String::new();
    let mut i: usize = 0;
    while i < elems.len()
        invariant
            i <= elems.len(),
            views == rich_views(elems@),
            alt_text(views, i as int) == Ok::<_, RenderError>(alt@),
        decreases elems.len() - i,
    {
        proof {
            crate::bookir::lemma_rich_views_index(elems@, i as int);
        }
        match &elems[i] {
            RichText::RawText(piece) => {
                alt.append(piece.as_str());
            },
            _ => {
                proof {
                    lemma_alt_error(views, i + 1, elems.len() as int);
                }
                return Err(RenderError::RichAltText);
            },
        }
        i += 1;
    }
    Ok(alt)
}

fn render_image(link: &Link) -> (r: Result<Vec<XmlOut>, RenderError>)
    ensures
        match r {
            Ok(events) => image_events(link@) == Ok::<_, RenderError>(out_views(events@)),
            Err(e) => image_events(link@) == Err::<Seq<XmlOutView>, _>(e),
        },
    decreases link, 0int,
{
    match link {
        Link::Text { title: _, elems, dest_url } => {
            proof {
                if elems.len() > 0 {
                    crate::bookir::lemma_rich_views_index(elems@, 0);
                } else {
                    assert(rich_views(elems@) =~= Seq::<RichTextView>::empty()) by {
                        reveal_with_fuel(rich_views, 2);
                    }
                }
            }
            match alt_of(elems) {
                Err(e) => Err(e),
                Ok(alt) => match render_nodes(elems) {
                    Err(e) => Err(e),
                    Ok(inner) => {
                        let mut attrs = one_attr("src", dest_url.as_str());
                        add_attr(&mut attrs, "alt", alt.as_str());
                        assert(pair_views(attrs@) =~= seq![("src"@, dest_url@), ("alt"@, alt@)]);
                        Ok(wrap("img", attrs, inner))
                    },
                },
            }
        },
        Link::Footnote(_) => Err(RenderError::FootnoteLink),
    }
}

fn render_styled(style: &Attributes, inner: Vec<XmlOut>) -> (out: Vec<XmlOut>)
    ensures
        out_views(out@) == starts(style_names(*style)) + out_views(inner@) + ends(
            style_names(*style).len(),
        ),
{
    let mut out = no_events();
    let mut count: usize = 0;
    let ghost mut names: Seq<Seq<char>> = Seq::empty();
    assert(out_views(out@) =~= starts(names));
    if style.strikethrough {
        emit_start(&mut out, "s", no_attrs());
        count += 1;
        proof {
            names = names.push("s"@);
        }
        assert(out_views(out@) =~= starts(names));
    }
    if style.underline {
        emit_start(&mut out, "u", no_attrs());
        count += 1;
        proof {
            names = names.push("u"@);
        }
        assert(out_views(out@) =~= starts(names));
    }
    if style.bold {
        emit_start(&mut out, "b", no_attrs());
        count += 1;
        proof {
            names = names.push("b"@);
        }
        assert(out_views(out@) =~= starts(names));
    }
    if style.italics {
        emit_start(&mut out, "i", no_attrs());
        count += 1;
        proof {
            names = names.push("i"@);
        }
        assert(out_views(out@) =~= starts(names));
    }
    assert(names =~= style_names(*style));
    append_events(&mut out, inner);
    let ghost body = out_views(out@);
    let mut k: usize = 0;
    assert(out_views(out@) =~= body + ends(0));
    while k < count
        invariant
            k <= count,
            out_views(out@) == body + ends(k as nat),
        decreases count - k,
    {
        emit_end(&mut out);
        k += 1;
        assert(out_views(out@) =~= body + ends(k as nat));
    }
    out
}

/// The XML events that write `node` as XHTML.
fn render_node(node: &RichText) -> (r: Result<Vec<XmlOut>, RenderError>)
    ensures
        match r {
            Ok(events) => node_events(node@) == Ok::<_, RenderError>(out_views(events@)),
            Err(e) => node_events(node@) == Err::<Seq<XmlOutView>, _>(e),
        },
    decreases node, 0int,
{
    match node {
        RichText::RawText(text) => Ok(one_event(XmlOut::Characters(text.clone()))),
        RichText::Xhtml(InlineXhtml::CData(text)) => Ok(one_event(XmlOut::CData(text.clone()))),
        RichText::Xhtml(InlineXhtml::Comment(text)) => Ok(
            one_event(XmlOut::Comment(text.clone())),
        ),
        RichText::Xhtml(InlineXhtml::Node(XmlNode::Block(elem, elems))) => {
            match render_nodes(elems) {
                Err(e) => Err(e),
                Ok(inner) => Ok(wrap(elem.name.as_str(), elem.attributes(), inner)),
            }
        },
        RichText::Xhtml(InlineXhtml::Node(XmlNode::Inline(elem))) => Ok(
            wrap(elem.name.as_str(), elem.attributes(), no_events()),
        ),
        RichText::Stylised(style, elems) => match render_nodes(elems) {
            Err(e) => Err(e),
            Ok(inner) => Ok(render_styled(style, inner)),
        },
        RichText::Paragraph(elems) => match render_nodes(elems) {
            Err(e) => Err(e),
            Ok(inner) => Ok(wrap("p", no_attrs(), inner)),
        },
        RichText::InlineCode(code) => Ok(
            wrap("code", no_attrs(), one_event(XmlOut::CData(code.clone()))),
        ),
        RichText::CodeBlock(block) => Ok(
            wrap(
                "div",
                one_attr("style", "font-family:monospace;background-color: #c9c9c9;"),
                one_event(XmlOut::CData(block.content.clone())),
            ),
        ),
        RichText::InternalLink(link) => render_link(link, true),
        RichText::ExternalLink(link) => render_link(link, false),
        RichText::InternalImage(link) => render_image(link),
        RichText::ExternalImage(link) => render_image(link),
        RichText::Heading(heading) => Ok(
            wrap(
                heading_tag(heading.level),
                one_attr("id", heading.id.as_str()),
                one_event(XmlOut::Characters(heading.text.clone())),
            ),
        ),
        RichText::TextBreak(BreakType::Rule) => Ok(wrap("hr", no_attrs(), no_events())),
        RichText::TextBreak(_) => Ok(wrap("br", no_attrs(), no_events())),
        RichText::List(list) => match render_items(&list.elems) {
            Err(e) => Err(e),
            Ok(inner) => {
                proof {
                    if list.elems.len() == 0 {
                        assert(crate::bookir::item_views(list.elems@).len() == 0) by {
                            reveal_with_fuel(crate::bookir::item_views, 2);
                        }
                    } else {
                        crate::bookir::lemma_item_views_index(list.elems@, 0);
                    }
                }
                match list.list_style {
                    ListStyle::Ordered(n) => {
                        let first = decimal_string(n);
                        Ok(wrap("ol", one_attr("start", first.as_str()), inner))
                    },
                    ListStyle::Unordered => Ok(wrap("ul", no_attrs(), inner)),
                }
            },
        },
        RichText::BlockQuote(elems) => match render_nodes(elems) {
            Err(e) => Err(e),
            Ok(inner) => Ok(wrap("bq", no_attrs(), inner)),
        },
        RichText::Table(_) => Err(RenderError::Table),
    }
}

/// Adds to `out` the XML events that write `node` as XHTML. A node that
/// cannot be written leaves `out` as it is.
pub fn write_rich_node(node: &RichText, out: &mut Vec<XmlOut>) -> (r: Result<(), RenderError>)
    ensures
        match r {
            Ok(()) => node_events(node@) matches Ok(events) && out_views(final(out)@) == out_views(
                old(out)@,
            ) + events,
            Err(e) => node_events(node@) == Err::<Seq<XmlOutView>, _>(e) && *final(out) == *old(
                out,
            ),
        },
{
    match render_node(node) {
        Ok(events) => {
            append_events(out, events);
            Ok(())
        },
        Err(e) => Err(e),
    }
}

/// Adds to `out` the XHTML document of a chapter. A chapter that cannot be
/// written leaves `out` as it is.
pub fn write_chapter(book: &BookChapter, out: &mut Vec<XmlOut>) -> (r: Result<(), RenderError>)
    ensures
        match r {
            Ok(()) => chapter_events(book@.content) matches Ok(events) && out_views(final(out)@)
                == out_views(old(out)@) + events,
            Err(e) => chapter_events(book@.content) == Err::<Seq<XmlOutView>, _>(e) && *final(out)
                == *old(out),
        },
{
    match render_nodes(&book.content) {
        Err(e) => Err(e),
        Ok(inner) => {
            let ghost before = out_views(out@);
            emit(out, XmlOut::StartDocument(XmlVersion::Version11));
            emit(
                out,
                XmlOut::StartElement {
                    name: String::from_str("html"),
                    attrs: no_attrs(),
                    namespaces: one_attr("", NS_XHTML_URI),
                },
            );
            emit_start(out, "body", no_attrs());
            append_events(out, inner);
            emit_end(out);
            emit_end(out);
            assert(out_views(out@) =~= before + chapter_events(book@.content)->Ok_0);
            Ok(())
        },
    }
}


impl RenderError {
    /// What the error says.
    pub open spec fn message(&self) -> Seq<char> {
        match self {
            RenderError::FootnoteLink => "a link to a footnote cannot be written"@,
            RenderError::RichAltText => "the alternative text of an image holds more than raw text"@,
            RenderError::Table => "a table cannot be written"@,
        }
    }

    /// What the error says.
    pub fn to_string(&self) -> (text: String)
        ensures
            text@ == self.message(),
    {
        match self {
            RenderError::FootnoteLink => String::from_str("a link to a footnote cannot be written"),
            RenderError::RichAltText => String::from_str(
                "the alternative text of an image holds more than raw text",
            ),
            RenderError::Table => String::from_str("a table cannot be written"),
        }
    }
}

} // verus!
