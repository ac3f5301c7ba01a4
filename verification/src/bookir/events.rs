//! The event stream of one chapter's Markdown.
//!
//! The tokenizer is `pulldown_cmark`. Its events are copied into a closed
//! type of this library, which keeps of each event what the rich-text parser
//! reads.

use super::HeadingLevel;
use pulldown_cmark::HeadingLevel as CmarkLevel;
use pulldown_cmark::{CodeBlockKind, Event, Options, Parser, Tag, TagEnd};
use vstd::prelude::*;

verus! {

/// `pulldown_cmark::Event`, of which nothing is known here.
#[verifier::external_type_specification]
#[verifier::external_body]
pub struct ExEvent<'a>(Event<'a>);

/// `pulldown_cmark::Tag`, of which nothing is known here.
#[verifier::external_type_specification]
#[verifier::external_body]
pub struct ExTag<'a>(Tag<'a>);

/// `pulldown_cmark::TagEnd`, of which nothing is known here.
#[verifier::external_type_specification]
#[verifier::external_body]
pub struct ExTagEnd(TagEnd);

/// `pulldown_cmark::CodeBlockKind`, of which nothing is known here.
#[verifier::external_type_specification]
#[verifier::external_body]
pub struct ExCodeBlockKind<'a>(CodeBlockKind<'a>);

/// `pulldown_cmark::HeadingLevel`, of which nothing is known here.
#[verifier::external_type_specification]
#[verifier::external_body]
pub struct ExCmarkLevel(CmarkLevel);

/// A construct of Markdown that has no place in a rich-text tree.
#[derive(Clone, Copy, Debug, PartialEq, Eq, Hash)]
pub enum Construct {
    FootnoteDefinition,
    DefinitionList,
    DefinitionListTitle,
    DefinitionListDefinition,
    Table,
    TableHead,
    TableRow,
    TableCell,
    MetadataBlock,
    TaskListMarker,
    Math,
    RichHeading,
}

/// The closing of a container.
#[derive(Clone, Copy, Debug, PartialEq, Eq, Hash)]
pub enum MdTagEnd {
    Paragraph,
    Heading,
    BlockQuote,
    CodeBlock,
    HtmlBlock,
    List,
    Item,
    Emphasis,
    Strong,
    Strikethrough,
    Link,
    Image,
    /// The closing of a container that the parser refuses to open.
    Unsupported(Construct),
}

/// How a code block was written.
#[derive(Clone, Debug, PartialEq, Eq, Hash)]
pub enum MdCodeBlockKind {
    Indented,
    /// Fenced, with its language tag, which may be empty.
    Fenced(String),
}

/// The opening of a container.
#[derive(Clone, Debug, PartialEq, Eq, Hash)]
pub enum MdTag {
    Paragraph,
    Heading { level: HeadingLevel, id: Option<String> },
    BlockQuote,
    CodeBlock(MdCodeBlockKind),
    HtmlBlock,
    /// A list; an ordered one carries the number of its first item.
    List(Option<u64>),
    Item,
    Emphasis,
    Strong,
    Strikethrough,
    Link { dest_url: String, title: String },
    Image { dest_url: String, title: String },
    /// The definition of a footnote, with the label of the footnote.
    FootnoteDefinition(String),
    /// The opening of any other container that rich text cannot hold.
    Unsupported(Construct),
}

/// One event of the stream.
#[derive(Clone, Debug, PartialEq, Eq, Hash)]
pub enum MdEvent {
    Start(MdTag),
    End(MdTagEnd),
    Text(String),
    Code(String),
    /// Inline or display math.
    Math(String),
    /// A piece of raw markup, inline or from an HTML block.
    Html(String),
    FootnoteReference(String),
    SoftBreak,
    HardBreak,
    Rule,
    TaskListMarker(bool),
}

/// Tables. This and the constants after it are the option bits of the
/// tokenizer, each as `pulldown_cmark::Options` numbers it.
pub const ENABLE_TABLES: u32 = 0x0002;

/// Footnotes.
pub const ENABLE_FOOTNOTES: u32 = 0x0004;

/// Text that is struck through.
pub const ENABLE_STRIKETHROUGH: u32 = 0x0008;

/// Lists of tasks.
pub const ENABLE_TASKLISTS: u32 = 0x0010;

/// Attributes written after a heading.
pub const ENABLE_HEADING_ATTRIBUTES: u32 = 0x0040;

/// Inline and display math.
pub const ENABLE_MATH: u32 = 0x0400;

/// The extensions of GitHub-flavoured Markdown to block quotes.
pub const ENABLE_GFM: u32 = 0x0800;

/// The events that `pulldown_cmark` reads from `text` under the option bits
/// `options`, each copied into an [`MdEvent`].
pub uninterp spec fn markdown_events(text: Seq<char>, options: u32) -> Seq<MdEvent>;

/// Copies `pulldown_cmark::HeadingLevel`, variant for variant.
#[verifier::external_body]
fn level_from(level: CmarkLevel) -> HeadingLevel {
    match level {
        CmarkLevel::H1 => HeadingLevel::H1,
        CmarkLevel::H2 => HeadingLevel::H2,
        CmarkLevel::H3 => HeadingLevel::H3,
        CmarkLevel::H4 => HeadingLevel::H4,
        CmarkLevel::H5 => HeadingLevel::H5,
        CmarkLevel::H6 => HeadingLevel::H6,
    }
}

/// Names the construct that a `pulldown_cmark::TagEnd` outside the parser's
/// reach closes: a footnote definition, a part of a definition list, a part
/// of a table, or else a metadata block.
#[verifier::external_body]
fn construct_from(end: TagEnd) -> Construct {
    match end {
        TagEnd::FootnoteDefinition => Construct::FootnoteDefinition,
        TagEnd::DefinitionList => Construct::DefinitionList,
        TagEnd::DefinitionListTitle => Construct::DefinitionListTitle,
        TagEnd::DefinitionListDefinition => Construct::DefinitionListDefinition,
        TagEnd::Table => Construct::Table,
        TagEnd::TableHead => Construct::TableHead,
        TagEnd::TableRow => Construct::TableRow,
        TagEnd::TableCell => Construct::TableCell,
        _ => Construct::MetadataBlock,
    }
}

/// Copies a `pulldown_cmark::TagEnd`, dropping what it carries.
#[verifier::external_body]
fn tag_end_from(end: TagEnd) -> MdTagEnd {
    match end {
        TagEnd::Paragraph => MdTagEnd::Paragraph,
        TagEnd::Heading(_) => MdTagEnd::Heading,
        TagEnd::BlockQuote(_) => MdTagEnd::BlockQuote,
        TagEnd::CodeBlock => MdTagEnd::CodeBlock,
        TagEnd::HtmlBlock => MdTagEnd::HtmlBlock,
        TagEnd::List(_) => MdTagEnd::List,
        TagEnd::Item => MdTagEnd::Item,
        TagEnd::Emphasis => MdTagEnd::Emphasis,
        TagEnd::Strong => MdTagEnd::Strong,
        TagEnd::Strikethrough => MdTagEnd::Strikethrough,
        TagEnd::Link => MdTagEnd::Link,
        TagEnd::Image => MdTagEnd::Image,
        other => MdTagEnd::Unsupported(construct_from(other)),
    }
}

/// Copies a `pulldown_cmark::CodeBlockKind`.
#[verifier::external_body]
fn code_block_kind_from(kind: CodeBlockKind) -> MdCodeBlockKind {
    match kind {
        CodeBlockKind::Indented => MdCodeBlockKind::Indented,
        CodeBlockKind::Fenced(lang) => MdCodeBlockKind::Fenced(lang.into_string()),
    }
}

/// Names the opening tag without data that `end` closes.
#[verifier::external_body]
fn plain_tag_from(end: TagEnd) -> MdTag {
    match end {
        TagEnd::Paragraph => MdTag::Paragraph,
        TagEnd::BlockQuote(_) => MdTag::BlockQuote,
        TagEnd::HtmlBlock => MdTag::HtmlBlock,
        TagEnd::Item => MdTag::Item,
        TagEnd::Emphasis => MdTag::Emphasis,
        TagEnd::Strong => MdTag::Strong,
        TagEnd::Strikethrough => MdTag::Strikethrough,
        other => MdTag::Unsupported(construct_from(other)),
    }
}

/// Copies a `pulldown_cmark::Tag`. Of a heading it keeps level and
/// identifier, of a link or image destination and title, of a footnote
/// definition the label; any other tag is told by `Tag::to_end`.
#[verifier::external_body]
fn tag_from(tag: Tag) -> MdTag {
    match tag {
        Tag::Heading { level, id, .. } => {
            MdTag::Heading { level: level_from(level), id: id.map(String::from) }
        },
        Tag::CodeBlock(kind) => MdTag::CodeBlock(code_block_kind_from(kind)),
        Tag::List(start) => MdTag::List(start),
        Tag::Link { dest_url, title, .. } => {
            MdTag::Link { dest_url: dest_url.into_string(), title: title.into_string() }
        },
        Tag::Image { dest_url, title, .. } => {
            MdTag::Image { dest_url: dest_url.into_string(), title: title.into_string() }
        },
        Tag::FootnoteDefinition(label) => MdTag::FootnoteDefinition(label.into_string()),
        other => plain_tag_from(other.to_end()),
    }
}

/// Copies a `pulldown_cmark::Event`. Inline and block HTML become
/// [`MdEvent::Html`], inline and display math [`MdEvent::Math`].
#[verifier::external_body]
fn event_from(event: Event) -> MdEvent {
    match event {
        Event::Start(tag) => MdEvent::Start(tag_from(tag)),
        Event::End(end) => MdEvent::End(tag_end_from(end)),
        Event::Text(s) => MdEvent::Text(s.into_string()),
        Event::Code(s) => MdEvent::Code(s.into_string()),
        Event::InlineMath(s) | Event::DisplayMath(s) => MdEvent::Math(s.into_string()),
        Event::Html(s) | Event::InlineHtml(s) => MdEvent::Html(s.into_string()),
        Event::FootnoteReference(s) => MdEvent::FootnoteReference(s.into_string()),
        Event::SoftBreak => MdEvent::SoftBreak,
        Event::HardBreak => MdEvent::HardBreak,
        Event::Rule => MdEvent::Rule,
        Event::TaskListMarker(checked) => MdEvent::TaskListMarker(checked),
    }
}

/// Runs `pulldown_cmark::Parser::new_ext` over `text` with the option bits
/// `options` (bits that name no option are dropped) and collects every event
/// it yields. The tokenizer reads nothing but its arguments, so the result is
/// what [`markdown_events`] names.
#[verifier::external_body]
pub(crate) fn tokenize(text: &str, options: u32) -> (events: Vec<MdEvent>)
    ensures
        events@ == markdown_events(text@, options),
{
    Parser::new_ext(text, Options::from_bits_truncate(options)).map(event_from).collect()
}


impl Construct {
    /// The construct in words.
    pub open spec fn name(&self) -> Seq<char> {
        match self {
            Construct::FootnoteDefinition => "footnote definition"@,
            Construct::DefinitionList => "definition list"@,
            Construct::DefinitionListTitle => "definition list title"@,
            Construct::DefinitionListDefinition => "definition list definition"@,
            Construct::Table => "table"@,
            Construct::TableHead => "table head"@,
            Construct::TableRow => "table row"@,
            Construct::TableCell => "table cell"@,
            Construct::MetadataBlock => "metadata block"@,
            Construct::TaskListMarker => "task list marker"@,
            Construct::Math => "math"@,
            Construct::RichHeading => "rich content in heading"@,
        }
    }

    /// The construct in words.
    pub fn as_str(&self) -> (text: &'static str)
        ensures
            text@ == self.name(),
    {
        match self {
            Construct::FootnoteDefinition => "footnote definition",
            Construct::DefinitionList => "definition list",
            Construct::DefinitionListTitle => "definition list title",
            Construct::DefinitionListDefinition => "definition list definition",
            Construct::Table => "table",
            Construct::TableHead => "table head",
            Construct::TableRow => "table row",
            Construct::TableCell => "table cell",
            Construct::MetadataBlock => "metadata block",
            Construct::TaskListMarker => "task list marker",
            Construct::Math => "math",
            Construct::RichHeading => "rich content in heading",
        }
    }
}


/// The events of the Markdown `text` under the option bits `options`.
pub fn read_events(text: &str, options: u32) -> (events: Vec<MdEvent>)
    ensures
        events@ == markdown_events(text@, options),
{
    tokenize(text, options)
}

} // verus!
