//! The rich-text tree of a chapter, and the document built from such trees.

use vstd::prelude::*;

pub mod events;
pub mod grammar;
pub mod laws;
pub mod markup;
pub mod nav;

use self::events::{tokenize, MdCodeBlockKind, MdEvent, MdTag, MdTagEnd};
use self::grammar::{
    cdata_close, cdata_open, chapter_content, children_from, classify_markup, closing_close,
    closing_open, code_text, comment_close, comment_open, content_from, elem_at, fragment_of,
    heading_text, is_external, list_items, option_bits, parsed, scheme_mark, style_of, styled,
    tag_at, xhtml_at, EndMarkerView, MarkupView, ParseError, StepView,
};
use self::markup::{read_xml_tokens, xml_tokens, XmlElem, XmlElemView, XmlToken};
use crate::helpers::name_to_id;
use crate::text::{
    chars_of, has_prefix, has_suffix, lemma_find_sub_contains, position_of_sub, string_of,
    text_views, trim_bounds,
};
use vstd::string::*;

verus! {

/// How the cells of a table column are aligned.
#[derive(Debug, Clone, Copy, PartialEq, Eq, Hash)]
pub enum Alignment {
    /// No alignment was asked for.
    Unspecified,
    Left,
    Center,
    Right,
}

/// An element of embedded markup: one that stands alone, or one that wraps
/// rich text.
#[derive(Debug, PartialEq, Eq)]
pub enum XmlNode {
    Block(XmlElem, Vec<RichText>),
    Inline(XmlElem),
}

/// A fragment of embedded markup.
#[derive(Debug, PartialEq, Eq)]
pub enum InlineXhtml {
    Node(XmlNode),
    Comment(String),
    CData(String),
}

/// The styles of a run of text. The flags are independent of one another.
#[derive(Debug, Clone, Copy, PartialEq, Eq, Hash)]
pub struct Attributes {
    pub bold: bool,
    pub italics: bool,
    pub underline: bool,
    pub strikethrough: bool,
}

impl Attributes {
    /// No style at all.
    pub open spec fn plain() -> Attributes {
        Attributes { bold: false, italics: false, underline: false, strikethrough: false }
    }
}

impl Default for Attributes {
    fn default() -> (a: Attributes)
        ensures
            a == Attributes::plain(),
    {
        Attributes { bold: false, italics: false, underline: false, strikethrough: false }
    }
}

/// What a link or an image points to.
#[derive(Debug, PartialEq, Eq)]
pub enum Link {
    Text { title: String, elems: Vec<RichText>, dest_url: String },
    Footnote(String),
}

/// A block of code with the language it is written in, which may be empty.
#[derive(Debug, Clone, PartialEq, Eq)]
pub struct CodeBlock {
    pub lang: String,
    pub content: String,
}

/// A table: how its columns are aligned, its head and its rows.
#[derive(Debug, PartialEq, Eq)]
pub struct Table {
    pub align: Vec<Alignment>,
    pub head: Option<TableRow>,
    pub body: Vec<TableRow>,
}

/// One row of a table, cell by cell.
#[derive(Debug, PartialEq, Eq)]
pub struct TableRow {
    pub elems: Vec<RichText>,
}

/// A node of rich text.
#[derive(Debug, PartialEq, Eq)]
pub enum RichText {
    RawText(String),
    Xhtml(InlineXhtml),
    Stylised(Attributes, Vec<RichText>),
    Paragraph(Vec<RichText>),
    InlineCode(String),
    CodeBlock(CodeBlock),
    BlockQuote(Vec<RichText>),
    InternalLink(Link),
    ExternalLink(Link),
    InternalImage(Link),
    ExternalImage(Link),
    Heading(Heading),
    TextBreak(BreakType),
    List(List),
    Table(Table),
}

/// How the items of a list are marked.
#[derive(Debug, Copy, Clone, Hash, PartialEq, Eq)]
pub enum ListStyle {
    Unordered,
    /// Ordered, with the number of the first item.
    Ordered(u64),
}

/// One item of a list.
#[derive(Debug, PartialEq, Eq)]
pub struct ListItem(pub Vec<RichText>);

/// A list and how its items are marked.
#[derive(Debug, PartialEq, Eq)]
pub struct List {
    pub list_style: ListStyle,
    pub elems: Vec<ListItem>,
}

/// A break in the text.
#[derive(Debug, Copy, Clone, Hash, PartialEq, Eq)]
pub enum BreakType {
    Rule,
    SoftLine,
    HardLine,
}

/// A heading: its level, its plain text and its identifier.
#[derive(Debug, Clone, PartialEq, Eq)]
pub struct Heading {
    pub level: HeadingLevel,
    pub text: String,
    pub id: String,
}

/// The level of a heading, from the topmost down.
#[derive(Debug, Copy, Clone, Hash, PartialEq, Eq)]
pub enum HeadingLevel {
    H1,
    H2,
    H3,
    H4,
    H5,
    H6,
}

/// What the caller asks of the parser.
#[derive(Debug, Copy, Clone, Hash, PartialEq, Eq)]
pub struct RichTextOptions {
    /// Whether math is tokenized as math.
    pub math: bool,
}

impl Default for RichTextOptions {
    fn default() -> (options: RichTextOptions)
        ensures
            options == (RichTextOptions { math: false }),
    {
        RichTextOptions { math: false }
    }
}

/// What closes a run of children.
#[derive(Debug, Clone, Hash, PartialEq, Eq)]
pub enum EndMarker {
    /// The closing of a Markdown container.
    MdTag(MdTagEnd),
    /// A closing tag written as raw markup, with the name in it.
    XhtmlTag(String),
}

impl View for EndMarker {
    type V = EndMarkerView;

    open spec fn view(&self) -> EndMarkerView {
        match self {
            EndMarker::MdTag(end) => EndMarkerView::MdTag(*end),
            EndMarker::XhtmlTag(name) => EndMarkerView::XhtmlTag(name@),
        }
    }
}

/// What stands at a position: a node, or the closing of the run it is in.
#[derive(Debug, PartialEq, Eq)]
pub enum Step {
    Elem(RichText),
    End(EndMarker),
}

impl View for Step {
    type V = StepView;

    open spec fn view(&self) -> StepView {
        match self {
            Step::Elem(node) => StepView::Elem(node@),
            Step::End(end) => StepView::End(end@),
        }
    }
}

/// A piece of raw markup, told by how it starts and ends.
#[derive(Debug, Clone, PartialEq, Eq)]
pub enum Markup {
    Comment(String),
    CData(String),
    Closing(String),
    Opening,
    Malformed,
}

impl View for Markup {
    type V = MarkupView;

    open spec fn view(&self) -> MarkupView {
        match self {
            Markup::Comment(body) => MarkupView::Comment(body@),
            Markup::CData(body) => MarkupView::CData(body@),
            Markup::Closing(name) => MarkupView::Closing(name@),
            Markup::Opening => MarkupView::Opening,
            Markup::Malformed => MarkupView::Malformed,
        }
    }
}

/// A fragment of embedded markup, as a value of the model. An element
/// without children stands alone; one with children wraps them.
pub enum InlineXhtmlView {
    Comment(Seq<char>),
    CData(Seq<char>),
    Node(XmlElemView, Option<Seq<RichTextView>>),
}

/// A link or an image, as a value of the model.
pub enum LinkView {
    Text { title: Seq<char>, children: Seq<RichTextView>, destination: Seq<char> },
    Footnote(Seq<char>),
}

/// A table, as a value of the model.
pub struct TableView {
    pub align: Seq<Alignment>,
    pub head: Option<Seq<RichTextView>>,
    pub body: Seq<Seq<RichTextView>>,
}

/// A node of rich text, as a value of the model.
pub enum RichTextView {
    RawText(Seq<char>),
    InlineCode(Seq<char>),
    TextBreak(BreakType),
    Xhtml(InlineXhtmlView),
    Stylised(Attributes, Seq<RichTextView>),
    Paragraph(Seq<RichTextView>),
    BlockQuote(Seq<RichTextView>),
    CodeBlock { language: Seq<char>, content: Seq<char> },
    Heading { level: HeadingLevel, text: Seq<char>, id: Seq<char> },
    List { style: ListStyle, items: Seq<Seq<RichTextView>> },
    InternalLink(LinkView),
    ExternalLink(LinkView),
    InternalImage(LinkView),
    ExternalImage(LinkView),
    Table(TableView),
}

/// The model of each node of `s`, in order.
pub open spec fn rich_views(s: Seq<RichText>) -> Seq<RichTextView>
    decreases s,
{
    Seq::new(
        s.len(),
        |i: int|
            if 0 <= i < s.len() {
                s[i]@
            } else {
                arbitrary()
            },
    )
}

/// The model of each list item of `s`, in order.
pub open spec fn item_views(s: Seq<ListItem>) -> Seq<Seq<RichTextView>>
    decreases s,
{
    Seq::new(
        s.len(),
        |i: int|
            if 0 <= i < s.len() {
                rich_views(s[i].0@)
            } else {
                arbitrary()
            },
    )
}

/// The model of each table row of `s`, in order.
pub open spec fn row_views(s: Seq<TableRow>) -> Seq<Seq<RichTextView>>
    decreases s,
{
    Seq::new(
        s.len(),
        |i: int|
            if 0 <= i < s.len() {
                rich_views(s[i].elems@)
            } else {
                arbitrary()
            },
    )
}

impl View for Link {
    type V = LinkView;

    open spec fn view(&self) -> LinkView
        decreases self,
    {
        match self {
            Link::Text { title, elems, dest_url } => LinkView::Text {
                title: title@,
                children: rich_views(elems@),
                destination: dest_url@,
            },
            Link::Footnote(id) => LinkView::Footnote(id@),
        }
    }
}

impl View for InlineXhtml {
    type V = InlineXhtmlView;

    open spec fn view(&self) -> InlineXhtmlView
        decreases self,
    {
        match self {
            InlineXhtml::Node(XmlNode::Block(elem, elems)) => InlineXhtmlView::Node(
                elem@,
                Some(rich_views(elems@)),
            ),
            InlineXhtml::Node(XmlNode::Inline(elem)) => InlineXhtmlView::Node(elem@, None),
            InlineXhtml::Comment(text) => InlineXhtmlView::Comment(text@),
            InlineXhtml::CData(text) => InlineXhtmlView::CData(text@),
        }
    }
}

impl View for Table {
    type V = TableView;

    open spec fn view(&self) -> TableView
        decreases self,
    {
        TableView {
            align: self.align@,
            head: match self.head {
                Some(row) => Some(rich_views(row.elems@)),
                None => None,
            },
            body: row_views(self.body@),
        }
    }
}

impl View for RichText {
    type V = RichTextView;

    open spec fn view(&self) -> RichTextView
        decreases self,
    {
        match self {
            RichText::RawText(text) => RichTextView::RawText(text@),
            RichText::Xhtml(xhtml) => RichTextView::Xhtml(xhtml@),
            RichText::Stylised(style, elems) => RichTextView::Stylised(*style, rich_views(elems@)),
            RichText::Paragraph(elems) => RichTextView::Paragraph(rich_views(elems@)),
            RichText::InlineCode(code) => RichTextView::InlineCode(code@),
            RichText::CodeBlock(block) => RichTextView::CodeBlock {
                language: block.lang@,
                content: block.content@,
            },
            RichText::BlockQuote(elems) => RichTextView::BlockQuote(rich_views(elems@)),
            RichText::InternalLink(link) => RichTextView::InternalLink(link@),
            RichText::ExternalLink(link) => RichTextView::ExternalLink(link@),
            RichText::InternalImage(link) => RichTextView::InternalImage(link@),
            RichText::ExternalImage(link) => RichTextView::ExternalImage(link@),
            RichText::Heading(heading) => RichTextView::Heading {
                level: heading.level,
                text: heading.text@,
                id: heading.id@,
            },
            RichText::TextBreak(kind) => RichTextView::TextBreak(*kind),
            RichText::List(list) => RichTextView::List {
                style: list.list_style,
                items: item_views(list.elems@),
            },
            RichText::Table(table) => RichTextView::Table(table@),
        }
    }
}

/// Adding a node at the end adds its model at the end.
pub proof fn lemma_rich_views_push(s: Seq<RichText>, node: RichText)
    ensures
        rich_views(s.push(node)) == rich_views(s).push(node@),
{
    reveal_with_fuel(rich_views, 2);
    let a = rich_views(s.push(node));
    let b = rich_views(s).push(node@);
    assert(rich_views(s).len() == s.len());
    assert(a.len() == s.len() + 1);
    assert(a.len() == b.len());
    assert forall|i: int| 0 <= i < a.len() implies a[i] == b[i] by {
        if i < s.len() {
            assert(s.push(node)[i] == s[i]);
        } else {
            assert(s.push(node)[i] == node);
        }
    }
    assert(a =~= b);
}

/// The model of a sequence of nodes holds the model of each node.
pub proof fn lemma_rich_views_index(s: Seq<RichText>, i: int)
    requires
        0 <= i < s.len(),
    ensures
        rich_views(s).len() == s.len(),
        rich_views(s)[i] == s[i]@,
{
    reveal_with_fuel(rich_views, 2);
}

/// The model of a sequence of list items holds the model of each item.
pub proof fn lemma_item_views_index(s: Seq<ListItem>, i: int)
    requires
        0 <= i < s.len(),
    ensures
        item_views(s).len() == s.len(),
        item_views(s)[i] == rich_views(s[i].0@),
{
    reveal_with_fuel(item_views, 2);
}

/// Adding a list item at the end adds its model at the end.
pub proof fn lemma_item_views_push(s: Seq<ListItem>, item: ListItem)
    ensures
        item_views(s.push(item)) == item_views(s).push(rich_views(item.0@)),
{
    let a = item_views(s.push(item));
    let b = item_views(s).push(rich_views(item.0@));
    assert(a.len() == b.len());
    assert forall|i: int| 0 <= i < a.len() implies a[i] == b[i] by {
        if i < s.len() {
            assert(s.push(item)[i] == s[i]);
        } else {
            assert(s.push(item)[i] == item);
        }
    }
    assert(a =~= b);
}


/// Reads a piece of raw markup as one element, and says whether the element
/// is closed already.
pub fn read_fragment(blob: &str) -> (r: Result<(XmlElem, bool), ParseError>)
    ensures
        match r {
            Ok((elem, closed)) => fragment_of(xml_tokens(blob@)) == Ok::<_, ParseError>(
                (elem@, closed),
            ),
            Err(e) => fragment_of(xml_tokens(blob@)) == Err::<(XmlElemView, bool), _>(e),
        },
{
    let tokens = read_xml_tokens(blob);
    fragment(&tokens)
}

/// The option bits that `options` stand for.
pub fn markdown_options(options: RichTextOptions) -> (bits: u32)
    ensures
        bits == option_bits(options),
{
    let base = events::ENABLE_TABLES + events::ENABLE_STRIKETHROUGH + events::ENABLE_GFM
        + events::ENABLE_HEADING_ATTRIBUTES;
    if options.math {
        base + events::ENABLE_MATH
    } else {
        base
    }
}

/// Tells a piece of raw markup by how it starts and ends: a comment, a
/// CDATA section, a closing tag, or something to be read as an opening tag.
pub fn classify(html: &str) -> (m: Markup)
    ensures
        m@ == classify_markup(html@),
{
    let v = chars_of(html);
    let n = v.len();
    assert(v@.subrange(0, n as int) == v@);
    let open = vec!['<', '!', '-', '-'];
    let close = vec!['-', '-', '>'];
    assert(open@ =~= comment_open());
    assert(close@ =~= comment_close());
    if has_prefix(&v, 0, n, &open) {
        assert(v@.skip(4) == v@.subrange(4, n as int));
        if has_suffix(&v, 4, n, &close) {
            assert(v@.subrange(4, n as int).take(n - 4 - 3) == v@.subrange(4, n - 3));
            return Markup::Comment(string_of(&v, 4, n - 3));
        }
        return Markup::Malformed;
    }
    let open = vec!['<', '!', '[', 'C', 'D', 'A', 'T', 'A', '['];
    let close = vec![']', ']', '>'];
    assert(open@ =~= cdata_open());
    assert(close@ =~= cdata_close());
    if has_prefix(&v, 0, n, &open) {
        assert(v@.skip(9) == v@.subrange(9, n as int));
        if has_suffix(&v, 9, n, &close) {
            assert(v@.subrange(9, n as int).take(n - 9 - 3) == v@.subrange(9, n - 3));
            return Markup::CData(string_of(&v, 9, n - 3));
        }
        return Markup::Malformed;
    }
    let open = vec!['<', '/'];
    let close = vec!['>'];
    assert(open@ =~= closing_open());
    assert(close@ =~= closing_close());
    if has_prefix(&v, 0, n, &open) {
        assert(v@.skip(2) == v@.subrange(2, n as int));
        if has_suffix(&v, 2, n, &close) {
            assert(v@.subrange(2, n as int).take(n - 2 - 1) == v@.subrange(2, n - 1));
            let name = string_of(&v, 2, n - 1);
            let inner = chars_of(name.as_str());
            let (from, to) = trim_bounds(&inner);
            return Markup::Closing(string_of(&inner, from, to));
        }
        return Markup::Malformed;
    }
    Markup::Opening
}

/// Whether a destination leaves the book: whether it holds `://`.
pub fn destination_is_external(destination: &str) -> (b: bool)
    ensures
        b == is_external(destination@),
{
    let v = chars_of(destination);
    let mark = vec![':', '/', '/'];
    assert(mark@ =~= scheme_mark());
    proof {
        lemma_find_sub_contains(v@, mark@);
    }
    position_of_sub(&v, &mark) < v.len()
}

/// Reads what the markup reader reported as one element, and says whether
/// the element is closed already.
pub fn fragment(tokens: &Vec<XmlToken>) -> (r: Result<(XmlElem, bool), ParseError>)
    ensures
        match r {
            Ok((elem, closed)) => fragment_of(tokens@) == Ok::<_, ParseError>((elem@, closed)),
            Err(e) => fragment_of(tokens@) == Err::<(XmlElemView, bool), _>(e),
        },
{
    let at: usize = if tokens.len() > 0 {
        match &tokens[0] {
            XmlToken::StartDocument => 1,
            _ => 0,
        }
    } else {
        0
    };
    if at >= tokens.len() {
        return Err(ParseError::MalformedMarkup);
    }
    match &tokens[at] {
        XmlToken::StartElement { name, attrs } => {
            let elem = XmlElem::new(name.clone(), attrs);
            if at + 1 < tokens.len() {
                match &tokens[at + 1] {
                    XmlToken::EndElement { name: end } => {
                        if *end == *name {
                            Ok((elem, true))
                        } else {
                            Err(ParseError::MalformedMarkup)
                        }
                    },
                    _ => Ok((elem, false)),
                }
            } else {
                Ok((elem, false))
            }
        },
        _ => Err(ParseError::MalformedMarkup),
    }
}


/// The parser of one chapter: a stream of events and a position in it.
#[derive(Debug)]
pub struct RichTextParser {
    events: Vec<MdEvent>,
    pos: usize,
}

impl RichTextParser {
    #[verifier::type_invariant]
    spec fn in_bounds(&self) -> bool {
        self.pos <= self.events.len()
    }

    /// The stream that the parser reads.
    pub closed spec fn events(&self) -> Seq<MdEvent> {
        self.events@
    }

    /// The index of the next event to be read.
    pub closed spec fn position(&self) -> int {
        self.pos as int
    }

    /// A parser at the start of the events of `text`.
    pub fn new(text: &str, options: RichTextOptions) -> (parser: RichTextParser)
        ensures
            parser.events() == events::markdown_events(text@, option_bits(options)),
            parser.position() == 0,
    {
        RichTextParser { events: tokenize(text, markdown_options(options)), pos: 0 }
    }

    /// A parser at the start of `events`.
    pub fn from_events(events: Vec<MdEvent>) -> (parser: RichTextParser)
        ensures
            parser.events() == events@,
            parser.position() == 0,
    {
        RichTextParser { events, pos: 0 }
    }

    /// The text of a heading from `pos` on, added to `acc`.
    fn heading_text(ev: &Vec<MdEvent>, pos: usize, acc: String) -> (r: Result<
        (String, usize),
        ParseError,
    >)
        requires
            pos <= ev.len(),
        ensures
            match r {
                Ok((text, next)) => heading_text(ev@, pos as int, acc@) == Ok::<_, ParseError>(
                    (text@, next as int),
                ) && pos < next <= ev.len(),
                Err(e) => heading_text(ev@, pos as int, acc@) == Err::<(Seq<char>, int), _>(e),
            },
    {
        let mut text = acc;
        let mut at = pos;
        loop
            invariant
                pos <= at <= ev.len(),
                heading_text(ev@, pos as int, acc@) == heading_text(ev@, at as int, text@),
            decreases ev.len() - at,
        {
            if at >= ev.len() {
                return Err(ParseError::UnexpectedEnd);
            }
            match &ev[at] {
                MdEvent::End(MdTagEnd::Heading) => {
                    return Ok((text, at + 1));
                },
                MdEvent::Text(piece) => {
                    text.append(piece.as_str());
                    at += 1;
                },
                _ => {
                    return Err(ParseError::Unsupported(events::Construct::RichHeading));
                },
            }
        }
    }

    /// The content of a code block from `pos` on, added to `acc`.
    fn code_text(ev: &Vec<MdEvent>, pos: usize, acc: String) -> (r: Result<
        (String, usize),
        ParseError,
    >)
        requires
            pos <= ev.len(),
        ensures
            match r {
                Ok((text, next)) => code_text(ev@, pos as int, acc@) == Ok::<_, ParseError>(
                    (text@, next as int),
                ) && pos < next <= ev.len(),
                Err(e) => code_text(ev@, pos as int, acc@) == Err::<(Seq<char>, int), _>(e),
            },
    {
        let mut text = acc;
        let mut at = pos;
        loop
            invariant
                pos <= at <= ev.len(),
                code_text(ev@, pos as int, acc@) == code_text(ev@, at as int, text@),
            decreases ev.len() - at,
        {
            if at >= ev.len() {
                return Err(ParseError::UnexpectedEnd);
            }
            match &ev[at] {
                MdEvent::End(MdTagEnd::CodeBlock) => {
                    return Ok((text, at + 1));
                },
                MdEvent::Text(piece) => {
                    text.append(piece.as_str());
                    at += 1;
                },
                _ => {
                    return Err(ParseError::UnexpectedEvent);
                },
            }
        }
    }

    /// The node at `pos`, with the position after it.
    fn next_elem(ev: &Vec<MdEvent>, pos: usize) -> (r: Result<(Option<Step>, usize), ParseError>)
        requires
            pos <= ev.len(),
        ensures
            match r {
                Ok((Some(step), next)) => elem_at(ev@, pos as int) == Ok::<_, ParseError>(
                    (Some(step@), next as int),
                ) && pos < next <= ev.len(),
                Ok((None, next)) => elem_at(ev@, pos as int) == Ok::<_, ParseError>(
                    (None::<StepView>, next as int),
                ) && next == ev.len(),
                Err(e) => elem_at(ev@, pos as int) == Err::<(Option<StepView>, int), _>(e),
            },
        decreases ev.len() - pos, 2int,
    {
        if pos >= ev.len() {
            return Ok((None, pos));
        }
        match &ev[pos] {
            MdEvent::Text(text) => Ok((Some(Step::Elem(RichText::RawText(text.clone()))), pos + 1)),
            MdEvent::Code(code) => Ok(
                (Some(Step::Elem(RichText::InlineCode(code.clone()))), pos + 1),
            ),
            MdEvent::Math(_) => Err(ParseError::Unsupported(events::Construct::Math)),
            MdEvent::Html(html) => match classify(html.as_str()) {
                Markup::Comment(body) => Ok(
                    (Some(Step::Elem(RichText::Xhtml(InlineXhtml::Comment(body)))), pos + 1),
                ),
                Markup::CData(body) => Ok(
                    (Some(Step::Elem(RichText::Xhtml(InlineXhtml::CData(body)))), pos + 1),
                ),
                Markup::Closing(name) => Ok((Some(Step::End(EndMarker::XhtmlTag(name))), pos + 1)),
                Markup::Malformed => Err(ParseError::MalformedMarkup),
                Markup::Opening => match Self::handle_html(ev, pos, html.as_str()) {
                    Ok((node, next)) => Ok((Some(Step::Elem(node)), next)),
                    Err(e) => Err(e),
                },
            },
            MdEvent::FootnoteReference(id) => Ok(
                (Some(Step::Elem(RichText::InternalLink(Link::Footnote(id.clone())))), pos + 1),
            ),
            MdEvent::SoftBreak => Ok(
                (Some(Step::Elem(RichText::TextBreak(BreakType::SoftLine))), pos + 1),
            ),
            MdEvent::HardBreak => Ok(
                (Some(Step::Elem(RichText::TextBreak(BreakType::HardLine))), pos + 1),
            ),
            MdEvent::Rule => Ok((Some(Step::Elem(RichText::TextBreak(BreakType::Rule))), pos + 1)),
            MdEvent::TaskListMarker(_) => Err(
                ParseError::Unsupported(events::Construct::TaskListMarker),
            ),
            MdEvent::Start(MdTag::HtmlBlock) => Self::next_elem(ev, pos + 1),
            MdEvent::End(MdTagEnd::HtmlBlock) => Self::next_elem(ev, pos + 1),
            MdEvent::End(end) => Ok((Some(Step::End(EndMarker::MdTag(*end))), pos + 1)),
            MdEvent::Start(tag) => match Self::handle_tag(ev, pos, tag) {
                Ok((node, next)) => Ok((Some(Step::Elem(node)), next)),
                Err(e) => Err(e),
            },
        }
    }

    /// The nodes from `pos` up to the closing of the run, with that closing
    /// and the position after it.
    fn to_end(ev: &Vec<MdEvent>, pos: usize) -> (r: Result<
        (Vec<RichText>, EndMarker, usize),
        ParseError,
    >)
        requires
            pos <= ev.len(),
        ensures
            match r {
                Ok((elems, end, next)) => children_from(ev@, pos as int, Seq::empty()) == Ok::<
                    _,
                    ParseError,
                >((rich_views(elems@), end@, next as int)) && pos < next <= ev.len(),
                Err(e) => children_from(ev@, pos as int, Seq::empty()) == Err::<
                    (Seq<RichTextView>, EndMarkerView, int),
                    _,
                >(e),
            },
        decreases ev.len() - pos, 3int,
    {
        let mut elems: Vec<RichText> = Vec::new();
        let mut at = pos;
        assert(rich_views(elems@) =~= Seq::<RichTextView>::empty());
        loop
            invariant
                pos <= at <= ev.len(),
                children_from(ev@, pos as int, Seq::empty()) == children_from(
                    ev@,
                    at as int,
                    rich_views(elems@),
                ),
            decreases ev.len() - at,
        {
            match Self::next_elem(ev, at) {
                Err(e) => {
                    return Err(e);
                },
                Ok((None, _)) => {
                    return Err(ParseError::UnexpectedEnd);
                },
                Ok((Some(Step::End(end)), next)) => {
                    return Ok((elems, end, next));
                },
                Ok((Some(Step::Elem(node)), next)) => {
                    proof {
                        lemma_rich_views_push(elems@, node);
                    }
                    elems.push(node);
                    at = next;
                },
            }
        }
    }

    /// The items of a list from `pos` up to the closing of the list.
    fn list_items(ev: &Vec<MdEvent>, pos: usize) -> (r: Result<(Vec<ListItem>, usize), ParseError>)
        requires
            pos <= ev.len(),
        ensures
            match r {
                Ok((items, next)) => list_items(ev@, pos as int, Seq::empty()) == Ok::<
                    _,
                    ParseError,
                >((item_views(items@), next as int)) && pos < next <= ev.len(),
                Err(e) => list_items(ev@, pos as int, Seq::empty()) == Err::<
                    (Seq<Seq<RichTextView>>, int),
                    _,
                >(e),
            },
        decreases ev.len() - pos, 4int,
    {
        let mut items: Vec<ListItem> = Vec::new();
        let mut at = pos;
        assert(item_views(items@) =~= Seq::<Seq<RichTextView>>::empty());
        loop
            invariant
                pos <= at <= ev.len(),
                list_items(ev@, pos as int, Seq::empty()) == list_items(
                    ev@,
                    at as int,
                    item_views(items@),
                ),
            decreases ev.len() - at,
        {
            if at >= ev.len() {
                return Err(ParseError::UnexpectedEnd);
            }
            match &ev[at] {
                MdEvent::End(MdTagEnd::List) => {
                    return Ok((items, at + 1));
                },
                MdEvent::Start(MdTag::Item) => {
                    match Self::to_end(ev, at + 1) {
                        Err(e) => {
                            return Err(e);
                        },
                        Ok((content, _, next)) => {
                            let item = ListItem(content);
                            proof {
                                lemma_item_views_push(items@, item);
                            }
                            items.push(item);
                            at = next;
                        },
                    }
                },
                _ => {
                    return Err(ParseError::UnexpectedEvent);
                },
            }
        }
    }

    /// The node that the opening tag `blob` at `pos` makes.
    fn handle_html(ev: &Vec<MdEvent>, pos: usize, blob: &str) -> (r: Result<
        (RichText, usize),
        ParseError,
    >)
        requires
            pos < ev.len(),
        ensures
            match r {
                Ok((node, next)) => xhtml_at(ev@, pos as int, blob@) == Ok::<_, ParseError>(
                    (node@, next as int),
                ) && pos < next <= ev.len(),
                Err(e) => xhtml_at(ev@, pos as int, blob@) == Err::<(RichTextView, int), _>(e),
            },
        decreases ev.len() - pos, 1int,
    {
        match read_fragment(blob) {
            Err(e) => Err(e),
            Ok((elem, true)) => Ok(
                (RichText::Xhtml(InlineXhtml::Node(XmlNode::Inline(elem))), pos + 1),
            ),
            Ok((elem, false)) => match Self::to_end(ev, pos + 1) {
                Err(e) => Err(e),
                Ok((elems, EndMarker::XhtmlTag(name), next)) => {
                    if name == elem.name {
                        Ok((RichText::Xhtml(InlineXhtml::Node(XmlNode::Block(elem, elems))), next))
                    } else {
                        Err(ParseError::MalformedMarkup)
                    }
                },
                Ok((_, EndMarker::MdTag(_), _)) => Err(ParseError::MalformedMarkup),
            },
        }
    }

    /// The styled run that `elems` make under the style that `end` switches
    /// on.
    fn close_style(elems: Vec<RichText>, end: &EndMarker) -> (r: Result<RichText, ParseError>)
        ensures
            match r {
                Ok(node) => style_of(end@) matches Some(style) && node@ == styled(
                    rich_views(elems@),
                    style,
                ),
                Err(e) => style_of(end@) is None && e == ParseError::UnexpectedEvent,
            },
    {
        let mut flag = Attributes::default();
        match end {
            EndMarker::MdTag(MdTagEnd::Strong) => {
                flag.bold = true;
            },
            EndMarker::MdTag(MdTagEnd::Emphasis) => {
                flag.italics = true;
            },
            EndMarker::MdTag(MdTagEnd::Strikethrough) => {
                flag.strikethrough = true;
            },
            _ => {
                return Err(ParseError::UnexpectedEvent);
            },
        }
        let mut elems = elems;
        let ghost whole = elems@;
        let ghost children = rich_views(whole);
        if elems.len() == 1 {
            let only = elems.pop().unwrap();
            proof {
                reveal_with_fuel(rich_views, 2);
                assert(children.len() == 1);
                assert(children[0] == whole[0]@);
                assert(only == whole[0]);
            }
            match only {
                RichText::Stylised(style, inner) => {
                    let both = Attributes {
                        bold: style.bold || flag.bold,
                        italics: style.italics || flag.italics,
                        underline: style.underline || flag.underline,
                        strikethrough: style.strikethrough || flag.strikethrough,
                    };
                    Ok(RichText::Stylised(both, inner))
                },
                other => {
                    elems.push(other);
                    assert(elems@ =~= whole);
                    Ok(RichText::Stylised(flag, elems))
                },
            }
        } else {
            proof {
                reveal_with_fuel(rich_views, 2);
                assert(children.len() == whole.len());
            }
            Ok(RichText::Stylised(flag, elems))
        }
    }

    /// The node that the container opened by `tag` at `pos` makes.
    fn handle_tag(ev: &Vec<MdEvent>, pos: usize, tag: &MdTag) -> (r: Result<
        (RichText, usize),
        ParseError,
    >)
        requires
            pos < ev.len(),
        ensures
            match r {
                Ok((node, next)) => tag_at(ev@, pos as int, *tag) == Ok::<_, ParseError>(
                    (node@, next as int),
                ) && pos < next <= ev.len(),
                Err(e) => tag_at(ev@, pos as int, *tag) == Err::<(RichTextView, int), _>(e),
            },
        decreases ev.len() - pos, 1int,
    {
        match tag {
            MdTag::Paragraph => match Self::to_end(ev, pos + 1) {
                Ok((elems, _, next)) => Ok((RichText::Paragraph(elems), next)),
                Err(e) => Err(e),
            },
            MdTag::BlockQuote => match Self::to_end(ev, pos + 1) {
                Ok((elems, _, next)) => Ok((RichText::BlockQuote(elems), next)),
                Err(e) => Err(e),
            },
            MdTag::Heading { level, id } => match Self::heading_text(ev, pos + 1, String::new()) {
                Ok((text, next)) => {
                    let id = match id {
                        Some(id) => id.clone(),
                        None => name_to_id(text.as_str()),
                    };
                    Ok((RichText::Heading(Heading { level: *level, text, id }), next))
                },
                Err(e) => Err(e),
            },
            MdTag::CodeBlock(kind) => match Self::code_text(ev, pos + 1, String::new()) {
                Ok((content, next)) => {
                    let lang = match kind {
                        MdCodeBlockKind::Fenced(lang) => lang.clone(),
                        MdCodeBlockKind::Indented => String::new(),
                    };
                    Ok((RichText::CodeBlock(CodeBlock { lang, content }), next))
                },
                Err(e) => Err(e),
            },
            MdTag::List(start) => match Self::list_items(ev, pos + 1) {
                Ok((elems, next)) => {
                    let list_style = match start {
                        Some(n) => ListStyle::Ordered(*n),
                        None => ListStyle::Unordered,
                    };
                    Ok((RichText::List(List { list_style, elems }), next))
                },
                Err(e) => Err(e),
            },
            MdTag::Link { dest_url, title } => {
                let external = destination_is_external(dest_url.as_str());
                match Self::to_end(ev, pos + 1) {
                    Ok((elems, _, next)) => {
                        let link = Link::Text {
                            title: title.clone(),
                            elems,
                            dest_url: dest_url.clone(),
                        };
                        if external {
                            Ok((RichText::ExternalLink(link), next))
                        } else {
                            Ok((RichText::InternalLink(link), next))
                        }
                    },
                    Err(e) => Err(e),
                }
            },
            MdTag::Image { dest_url, title } => {
                let external = destination_is_external(dest_url.as_str());
                match Self::to_end(ev, pos + 1) {
                    Ok((elems, _, next)) => {
                        let link = Link::Text {
                            title: title.clone(),
                            elems,
                            dest_url: dest_url.clone(),
                        };
                        if external {
                            Ok((RichText::ExternalImage(link), next))
                        } else {
                            Ok((RichText::InternalImage(link), next))
                        }
                    },
                    Err(e) => Err(e),
                }
            },
            MdTag::Emphasis | MdTag::Strong | MdTag::Strikethrough => match Self::to_end(
                ev,
                pos + 1,
            ) {
                Ok((elems, end, next)) => match Self::close_style(elems, &end) {
                    Ok(node) => Ok((node, next)),
                    Err(e) => Err(e),
                },
                Err(e) => Err(e),
            },
            MdTag::HtmlBlock => Err(ParseError::UnexpectedEvent),
            MdTag::Item => Err(ParseError::UnexpectedEvent),
            MdTag::FootnoteDefinition(_) => Err(
                ParseError::Unsupported(events::Construct::FootnoteDefinition),
            ),
            MdTag::Unsupported(construct) => Err(ParseError::Unsupported(*construct)),
        }
    }
}


impl RichTextParser {
    /// The next top-level node of the chapter, `None` at the end of the
    /// stream. After an error the parser stands at the end of the stream.
    pub fn next(&mut self) -> (r: Option<Result<RichText, ParseError>>)
        ensures
            final(self).events() == old(self).events(),
            match elem_at(old(self).events(), old(self).position()) {
                Ok((None, _)) => r is None && final(self).position() == old(self).events().len(),
                Ok((Some(StepView::Elem(node)), next)) => r matches Some(Ok(n)) && n@ == node
                    && final(self).position() == next,
                Ok((Some(StepView::End(_)), _)) => r == Some(
                    Err::<RichText, _>(ParseError::UnexpectedEvent),
                ) && final(self).position() == old(self).events().len(),
                Err(e) => r == Some(Err::<RichText, _>(e)) && final(self).position() == old(
                    self,
                ).events().len(),
            },
    {
        proof {
            use_type_invariant(&*self);
        }
        match Self::next_elem(&self.events, self.pos) {
            Ok((None, next)) => {
                self.pos = next;
                None
            },
            Ok((Some(Step::Elem(node)), next)) => {
                self.pos = next;
                Some(Ok(node))
            },
            Ok((Some(Step::End(_)), _)) => {
                self.pos = self.events.len();
                Some(Err(ParseError::UnexpectedEvent))
            },
            Err(e) => {
                self.pos = self.events.len();
                Some(Err(e))
            },
        }
    }

    /// Every top-level node from the parser's position to the end of the
    /// stream.
    pub fn collect(self) -> (r: Result<Vec<RichText>, ParseError>)
        ensures
            match r {
                Ok(content) => content_from(self.events(), self.position(), Seq::empty()) == Ok::<
                    _,
                    ParseError,
                >(rich_views(content@)),
                Err(e) => content_from(self.events(), self.position(), Seq::empty()) == Err::<
                    Seq<RichTextView>,
                    _,
                >(e),
            },
    {
        proof {
            use_type_invariant(&self);
        }
        content_of(&self.events, self.pos)
    }
}

/// Every top-level node of `ev` from `pos` to the end.
fn content_of(ev: &Vec<MdEvent>, pos: usize) -> (r: Result<Vec<RichText>, ParseError>)
    requires
        pos <= ev.len(),
    ensures
        match r {
            Ok(content) => content_from(ev@, pos as int, Seq::empty()) == Ok::<_, ParseError>(
                rich_views(content@),
            ),
            Err(e) => content_from(ev@, pos as int, Seq::empty()) == Err::<Seq<RichTextView>, _>(
                e,
            ),
        },
{
    let mut content: Vec<RichText> = Vec::new();
    let mut at = pos;
    assert(rich_views(content@) =~= Seq::<RichTextView>::empty());
    loop
        invariant
            pos <= at <= ev.len(),
            content_from(ev@, pos as int, Seq::empty()) == content_from(
                ev@,
                at as int,
                rich_views(content@),
            ),
        decreases ev.len() - at,
    {
        match RichTextParser::next_elem(ev, at) {
            Err(e) => {
                return Err(e);
            },
            Ok((None, _)) => {
                return Ok(content);
            },
            Ok((Some(Step::End(_)), _)) => {
                return Err(ParseError::UnexpectedEvent);
            },
            Ok((Some(Step::Elem(node)), next)) => {
                proof {
                    lemma_rich_views_push(content@, node);
                }
                content.push(node);
                at = next;
            },
        }
    }
}

/// The rich text that a stream of events makes.
///
/// Every event is read once, front to back. The stream is refused as a
/// whole where it holds a construct that rich text cannot hold, markup that
/// is not well formed, an event where it cannot stand, or where it ends
/// inside a construct.
pub fn parse_events(events: &Vec<MdEvent>) -> (r: Result<Vec<RichText>, ParseError>)
    ensures
        match r {
            Ok(content) => parsed(events@) == Ok::<_, ParseError>(rich_views(content@)),
            Err(e) => parsed(events@) == Err::<Seq<RichTextView>, _>(e),
        },
{
    content_of(events, 0)
}

/// Whether `r` is what reading the chapter `text` under `options` gives: the
/// tree of the chapter, or the reason why it has none.
pub open spec fn reads_as(
    r: Result<Vec<RichText>, ParseError>,
    text: Seq<char>,
    options: RichTextOptions,
) -> bool {
    match r {
        Ok(content) => chapter_content(text, options) == Ok::<_, ParseError>(rich_views(content@)),
        Err(e) => chapter_content(text, options) == Err::<Seq<RichTextView>, _>(e),
    }
}

/// The rich text of a chapter written as `text`.
pub fn parse_chapter(text: &str, options: RichTextOptions) -> (r: Result<
    Vec<RichText>,
    ParseError,
>)
    ensures
        reads_as(r, text@, options),
{
    let events = tokenize(text, markdown_options(options));
    parse_events(&events)
}


/// A file of the book that is no chapter: where it lies, where it goes, and
/// its media type.
#[derive(Debug, Clone, PartialEq, Eq)]
pub struct ExtraItem {
    pub src_path: String,
    pub dest_path: String,
    pub content_type: String,
}

/// An extra file, as a value of the model.
pub struct ExtraItemView {
    pub source_path: Seq<char>,
    pub destination_path: Seq<char>,
    pub content_type: Seq<char>,
}

impl View for ExtraItem {
    type V = ExtraItemView;

    open spec fn view(&self) -> ExtraItemView {
        ExtraItemView {
            source_path: self.src_path@,
            destination_path: self.dest_path@,
            content_type: self.content_type@,
        }
    }
}

/// The model of each extra file of `s`, in order.
pub open spec fn extra_views(s: Seq<ExtraItem>) -> Seq<ExtraItemView> {
    Seq::new(s.len(), |i: int| s[i]@)
}

/// The whole document, as a renderer takes it.
#[derive(Debug, PartialEq, Eq)]
pub struct Book {
    pub title: String,
    pub tree: nav::NavTree,
    pub extra_files: Vec<ExtraItem>,
    pub authors: Vec<String>,
    pub id: String,
}

/// The whole document, as a value of the model.
pub struct BookView {
    pub title: Seq<char>,
    pub tree: Seq<nav::NavNodeView>,
    pub extra_files: Seq<ExtraItemView>,
    pub authors: Seq<Seq<char>>,
    pub id: Seq<char>,
}

impl View for Book {
    type V = BookView;

    open spec fn view(&self) -> BookView {
        BookView {
            title: self.title@,
            tree: self.tree@,
            extra_files: extra_views(self.extra_files@),
            authors: text_views(self.authors@),
            id: self.id@,
        }
    }
}

impl Book {
    /// Builds the document of a book from its items and its metadata, which
    /// are kept as they are given.
    pub fn build(
        title: String,
        items: &Vec<crate::book::BookItem>,
        opts: RichTextOptions,
        extra_files: Vec<ExtraItem>,
        authors: Vec<String>,
        id: String,
    ) -> (r: Result<Book, ParseError>)
        ensures
            match r {
                Ok(book) => nav::tree_of(items@, opts) == Ok::<_, ParseError>(book.tree@)
                    && book.title == title && book.extra_files == extra_files && book.authors
                    == authors && book.id == id,
                Err(e) => nav::tree_of(items@, opts) == Err::<Seq<nav::NavNodeView>, _>(e),
            },
    {
        match nav::NavTree::from_items(items, opts) {
            Ok(tree) => Ok(Book { title, tree, extra_files, authors, id }),
            Err(e) => Err(e),
        }
    }
}


/// A copy of each node of `nodes`.
fn clone_nodes(nodes: &Vec<RichText>) -> (copy: Vec<RichText>)
    ensures
        rich_views(copy@) == rich_views(nodes@),
    decreases nodes, 1int,
{
    let mut copy: Vec<RichText> = Vec::new();
    let mut i: usize = 0;
    while i < nodes.len()
        invariant
            i <= nodes.len(),
            copy@.len() == i,
            forall|j: int| 0 <= j < i ==> copy@[j]@ == nodes@[j]@,
        decreases nodes.len() - i,
    {
        copy.push(nodes[i].clone());
        i += 1;
    }
    proof {
        reveal_with_fuel(rich_views, 2);
        assert(rich_views(copy@) =~= rich_views(nodes@));
    }
    copy
}

fn clone_link(link: &Link) -> (copy: Link)
    ensures
        copy@ == link@,
    decreases link, 0int,
{
    match link {
        Link::Text { title, elems, dest_url } => Link::Text {
            title: title.clone(),
            elems: clone_nodes(elems),
            dest_url: dest_url.clone(),
        },
        Link::Footnote(id) => Link::Footnote(id.clone()),
    }
}

fn clone_items(items: &Vec<ListItem>) -> (copy: Vec<ListItem>)
    ensures
        item_views(copy@) == item_views(items@),
    decreases items, 1int,
{
    let mut copy: Vec<ListItem> = Vec::new();
    let mut i: usize = 0;
    while i < items.len()
        invariant
            i <= items.len(),
            copy@.len() == i,
            forall|j: int| 0 <= j < i ==> rich_views(copy@[j].0@) == rich_views(items@[j].0@),
        decreases items.len() - i,
    {
        copy.push(ListItem(clone_nodes(&items[i].0)));
        i += 1;
    }
    proof {
        reveal_with_fuel(item_views, 2);
        assert(item_views(copy@) =~= item_views(items@));
    }
    copy
}

fn clone_rows(rows: &Vec<TableRow>) -> (copy: Vec<TableRow>)
    ensures
        row_views(copy@) == row_views(rows@),
    decreases rows, 1int,
{
    let mut copy: Vec<TableRow> = Vec::new();
    let mut i: usize = 0;
    while i < rows.len()
        invariant
            i <= rows.len(),
            copy@.len() == i,
            forall|j: int|
                0 <= j < i ==> rich_views(copy@[j].elems@) == rich_views(rows@[j].elems@),
        decreases rows.len() - i,
    {
        copy.push(TableRow { elems: clone_nodes(&rows[i].elems) });
        i += 1;
    }
    proof {
        reveal_with_fuel(row_views, 2);
        assert(row_views(copy@) =~= row_views(rows@));
    }
    copy
}

fn clone_alignments(v: &Vec<Alignment>) -> (copy: Vec<Alignment>)
    ensures
        copy@ == v@,
{
    let mut copy: Vec<Alignment> = Vec::new();
    let mut i: usize = 0;
    while i < v.len()
        invariant
            i <= v.len(),
            copy@ == v@.take(i as int),
        decreases v.len() - i,
    {
        copy.push(v[i]);
        i += 1;
        assert(v@.take(i as int) =~= v@.take(i - 1).push(v@[i - 1]));
    }
    assert(v@.take(v.len() as int) =~= v@);
    copy
}

impl Clone for RichText {
    /// A copy that is the same rich text.
    fn clone(&self) -> (copy: RichText)
        ensures
            copy@ == self@,
        decreases self, 0int,
    {
        match self {
            RichText::RawText(text) => RichText::RawText(text.clone()),
            RichText::Xhtml(InlineXhtml::Node(XmlNode::Block(elem, elems))) => RichText::Xhtml(
                InlineXhtml::Node(XmlNode::Block(elem.clone(), clone_nodes(elems))),
            ),
            RichText::Xhtml(InlineXhtml::Node(XmlNode::Inline(elem))) => RichText::Xhtml(
                InlineXhtml::Node(XmlNode::Inline(elem.clone())),
            ),
            RichText::Xhtml(InlineXhtml::Comment(text)) => RichText::Xhtml(
                InlineXhtml::Comment(text.clone()),
            ),
            RichText::Xhtml(InlineXhtml::CData(text)) => RichText::Xhtml(
                InlineXhtml::CData(text.clone()),
            ),
            RichText::Stylised(style, elems) => RichText::Stylised(*style, clone_nodes(elems)),
            RichText::Paragraph(elems) => RichText::Paragraph(clone_nodes(elems)),
            RichText::InlineCode(code) => RichText::InlineCode(code.clone()),
            RichText::CodeBlock(block) => RichText::CodeBlock(
                CodeBlock { lang: block.lang.clone(), content: block.content.clone() },
            ),
            RichText::BlockQuote(elems) => RichText::BlockQuote(clone_nodes(elems)),
            RichText::InternalLink(link) => RichText::InternalLink(clone_link(link)),
            RichText::ExternalLink(link) => RichText::ExternalLink(clone_link(link)),
            RichText::InternalImage(link) => RichText::InternalImage(clone_link(link)),
            RichText::ExternalImage(link) => RichText::ExternalImage(clone_link(link)),
            RichText::Heading(heading) => RichText::Heading(
                Heading {
                    level: heading.level,
                    text: heading.text.clone(),
                    id: heading.id.clone(),
                },
            ),
            RichText::TextBreak(kind) => RichText::TextBreak(*kind),
            RichText::List(list) => RichText::List(
                List { list_style: list.list_style, elems: clone_items(&list.elems) },
            ),
            RichText::Table(table) => RichText::Table(
                Table {
                    align: clone_alignments(&table.align),
                    head: match &table.head {
                        Some(row) => Some(TableRow { elems: clone_nodes(&row.elems) }),
                        None => None,
                    },
                    body: clone_rows(&table.body),
                },
            ),
        }
    }
}


impl Clone for Link {
    fn clone(&self) -> (copy: Link)
        ensures
            copy@ == self@,
    {
        clone_link(self)
    }
}

impl Clone for ListItem {
    fn clone(&self) -> (copy: ListItem)
        ensures
            rich_views(copy.0@) == rich_views(self.0@),
    {
        ListItem(clone_nodes(&self.0))
    }
}

impl Clone for List {
    fn clone(&self) -> (copy: List)
        ensures
            copy.list_style == self.list_style,
            item_views(copy.elems@) == item_views(self.elems@),
    {
        List { list_style: self.list_style, elems: clone_items(&self.elems) }
    }
}

impl Clone for TableRow {
    fn clone(&self) -> (copy: TableRow)
        ensures
            rich_views(copy.elems@) == rich_views(self.elems@),
    {
        TableRow { elems: clone_nodes(&self.elems) }
    }
}

impl Clone for Table {
    fn clone(&self) -> (copy: Table)
        ensures
            copy@ == self@,
    {
        Table {
            align: clone_alignments(&self.align),
            head: match &self.head {
                Some(row) => Some(TableRow { elems: clone_nodes(&row.elems) }),
                None => None,
            },
            body: clone_rows(&self.body),
        }
    }
}

impl Clone for InlineXhtml {
    fn clone(&self) -> (copy: InlineXhtml)
        ensures
            copy@ == self@,
    {
        match self {
            InlineXhtml::Node(XmlNode::Block(elem, elems)) => InlineXhtml::Node(
                XmlNode::Block(elem.clone(), clone_nodes(elems)),
            ),
            InlineXhtml::Node(XmlNode::Inline(elem)) => InlineXhtml::Node(
                XmlNode::Inline(elem.clone()),
            ),
            InlineXhtml::Comment(text) => InlineXhtml::Comment(text.clone()),
            InlineXhtml::CData(text) => InlineXhtml::CData(text.clone()),
        }
    }
}

impl Clone for XmlNode {
    fn clone(&self) -> (copy: XmlNode)
        ensures
            InlineXhtml::Node(copy)@ == InlineXhtml::Node(*self)@,
    {
        match self {
            XmlNode::Block(elem, elems) => XmlNode::Block(elem.clone(), clone_nodes(elems)),
            XmlNode::Inline(elem) => XmlNode::Inline(elem.clone()),
        }
    }
}

/// A copy of each extra file of `v`.
pub fn clone_extra_files(v: &Vec<ExtraItem>) -> (copy: Vec<ExtraItem>)
    ensures
        extra_views(copy@) == extra_views(v@),
{
    let mut copy: Vec<ExtraItem> = Vec::new();
    let mut i: usize = 0;
    while i < v.len()
        invariant
            i <= v.len(),
            copy@.len() == i,
            forall|j: int| 0 <= j < i ==> copy@[j]@ == v@[j]@,
        decreases v.len() - i,
    {
        copy.push(
            ExtraItem {
                src_path: v[i].src_path.clone(),
                dest_path: v[i].dest_path.clone(),
                content_type: v[i].content_type.clone(),
            },
        );
        i += 1;
    }
    assert(extra_views(copy@) =~= extra_views(v@));
    copy
}

/// A copy of each text of `v`.
pub fn clone_texts(v: &Vec<String>) -> (copy: Vec<String>)
    ensures
        text_views(copy@) == text_views(v@),
{
    let mut copy: Vec<String> = Vec::new();
    let mut i: usize = 0;
    while i < v.len()
        invariant
            i <= v.len(),
            copy@.len() == i,
            forall|j: int| 0 <= j < i ==> copy@[j]@ == v@[j]@,
        decreases v.len() - i,
    {
        copy.push(v[i].clone());
        i += 1;
    }
    assert(text_views(copy@) =~= text_views(v@));
    copy
}

impl Clone for Book {
    fn clone(&self) -> (copy: Book)
        ensures
            copy@ == self@,
    {
        Book {
            title: self.title.clone(),
            tree: self.tree.clone(),
            extra_files: clone_extra_files(&self.extra_files),
            authors: clone_texts(&self.authors),
            id: self.id.clone(),
        }
    }
}

} // verus!
