//! Markdown events as plain values, and the parse of a document into them by
//! pulldown-cmark.

use vstd::prelude::*;
use pulldown_cmark::{CodeBlockKind, CowStr, Event, Options, Parser, Tag, TagEnd};

verus! {

/// The kinds of element that the renderer tells apart; `Other` stands for
/// every element it passes over (HTML blocks, footnote definitions,
/// definition lists, super- and subscripts, metadata blocks).
#[derive(Clone, Copy, Debug, PartialEq, Eq, Structural)]
pub enum TagKind {
    Paragraph,
    Heading,
    BlockQuote,
    CodeBlock,
    List,
    Item,
    Table,
    TableHead,
    TableRow,
    TableCell,
    Emphasis,
    Strong,
    Strikethrough,
    Link,
    Image,
    Other,
}

/// The start of an element, with what the renderer reads of it.
#[derive(Debug)]
pub enum MdTag {
    Paragraph,
    /// A heading of level 1 to 6.
    Heading(u32),
    BlockQuote,
    /// A code block: the info string of a fenced block, `None` for an
    /// indented one.
    CodeBlock(Option<Vec<char>>),
    /// A list: the number of its first item when it is ordered.
    List(Option<u64>),
    Item,
    Table,
    TableHead,
    TableRow,
    TableCell,
    Emphasis,
    Strong,
    Strikethrough,
    /// A link to the destination URL.
    Link(Vec<char>),
    /// An image at the destination URL.
    Image(Vec<char>),
    Other,
}

/// A Markdown event, as the renderer reads it.
#[derive(Debug)]
pub enum MdEvent {
    Start(MdTag),
    End(TagKind),
    Text(Vec<char>),
    Code(Vec<char>),
    /// Inline or display math.
    Math(Vec<char>),
    Html(Vec<char>),
    InlineHtml(Vec<char>),
    FootnoteReference(Vec<char>),
    SoftBreak,
    HardBreak,
    Rule,
    TaskListMarker(bool),
}

/// What an [`MdTag`] holds.
pub enum SpecTag {
    Paragraph,
    Heading(u32),
    BlockQuote,
    CodeBlock(Option<Seq<char>>),
    List(Option<u64>),
    Item,
    Table,
    TableHead,
    TableRow,
    TableCell,
    Emphasis,
    Strong,
    Strikethrough,
    Link(Seq<char>),
    Image(Seq<char>),
    Other,
}

/// What an [`MdEvent`] holds.
pub enum SpecEvent {
    Start(SpecTag),
    End(TagKind),
    Text(Seq<char>),
    Code(Seq<char>),
    Math(Seq<char>),
    Html(Seq<char>),
    InlineHtml(Seq<char>),
    FootnoteReference(Seq<char>),
    SoftBreak,
    HardBreak,
    Rule,
    TaskListMarker(bool),
}

impl View for MdTag {
    type V = SpecTag;

    open spec fn view(&self) -> SpecTag {
        match self {
            MdTag::Paragraph => SpecTag::Paragraph,
            MdTag::Heading(l) => SpecTag::Heading(*l),
            MdTag::BlockQuote => SpecTag::BlockQuote,
            MdTag::CodeBlock(info) => SpecTag::CodeBlock(
                match info {
                    Some(i) => Some(i@),
                    None => None,
                },
            ),
            MdTag::List(n) => SpecTag::List(*n),
            MdTag::Item => SpecTag::Item,
            MdTag::Table => SpecTag::Table,
            MdTag::TableHead => SpecTag::TableHead,
            MdTag::TableRow => SpecTag::TableRow,
            MdTag::TableCell => SpecTag::TableCell,
            MdTag::Emphasis => SpecTag::Emphasis,
            MdTag::Strong => SpecTag::Strong,
            MdTag::Strikethrough => SpecTag::Strikethrough,
            MdTag::Link(u) => SpecTag::Link(u@),
            MdTag::Image(u) => SpecTag::Image(u@),
            MdTag::Other => SpecTag::Other,
        }
    }
}

impl View for MdEvent {
    type V = SpecEvent;

    open spec fn view(&self) -> SpecEvent {
        match self {
            MdEvent::Start(t) => SpecEvent::Start(t@),
            MdEvent::End(k) => SpecEvent::End(*k),
            MdEvent::Text(s) => SpecEvent::Text(s@),
            MdEvent::Code(s) => SpecEvent::Code(s@),
            MdEvent::Math(s) => SpecEvent::Math(s@),
            MdEvent::Html(s) => SpecEvent::Html(s@),
            MdEvent::InlineHtml(s) => SpecEvent::InlineHtml(s@),
            MdEvent::FootnoteReference(s) => SpecEvent::FootnoteReference(s@),
            MdEvent::SoftBreak => SpecEvent::SoftBreak,
            MdEvent::HardBreak => SpecEvent::HardBreak,
            MdEvent::Rule => SpecEvent::Rule,
            MdEvent::TaskListMarker(b) => SpecEvent::TaskListMarker(*b),
        }
    }
}

/// What a sequence of events holds.
pub open spec fn events_view(events: Seq<MdEvent>) -> Seq<SpecEvent> {
    events.map_values(|e: MdEvent| e@)
}

/// pulldown-cmark's `Options::ENABLE_TABLES` bit.
pub const ENABLE_TABLES: u32 = 1 << 1;

/// pulldown-cmark's `Options::ENABLE_FOOTNOTES` bit.
pub const ENABLE_FOOTNOTES: u32 = 1 << 2;

/// pulldown-cmark's `Options::ENABLE_STRIKETHROUGH` bit.
pub const ENABLE_STRIKETHROUGH: u32 = 1 << 3;

/// pulldown-cmark's `Options::ENABLE_TASKLISTS` bit.
pub const ENABLE_TASKLISTS: u32 = 1 << 4;

/// The Markdown extensions the renderer parses: strikethrough, tables,
/// footnotes and task lists.
pub const RENDER_OPTIONS: u32 = ENABLE_STRIKETHROUGH | ENABLE_TABLES | ENABLE_FOOTNOTES
    | ENABLE_TASKLISTS;

#[verifier::external_type_specification]
#[verifier::external_body]
pub struct ExEvent<'a>(Event<'a>);

#[verifier::external_type_specification]
#[verifier::external_body]
pub struct ExTag<'a>(Tag<'a>);

#[verifier::external_type_specification]
#[verifier::external_body]
pub struct ExTagEnd(TagEnd);

#[verifier::external_type_specification]
#[verifier::external_body]
pub struct ExCowStr<'a>(CowStr<'a>);

#[verifier::external_type_specification]
#[verifier::external_body]
pub struct ExCodeBlockKind<'a>(CodeBlockKind<'a>);

/// The variants of a pulldown-cmark event, their fields moved out.
enum EventParts<'a> {
    Start(Tag<'a>),
    End(TagEnd),
    Text(CowStr<'a>),
    Code(CowStr<'a>),
    Math(CowStr<'a>),
    Html(CowStr<'a>),
    InlineHtml(CowStr<'a>),
    FootnoteReference(CowStr<'a>),
    SoftBreak,
    HardBreak,
    Rule,
    TaskListMarker(bool),
}

/// The inline elements a pulldown-cmark start tag can open.
enum InlineStart<'a> {
    Emphasis,
    Strong,
    Strikethrough,
    Link(CowStr<'a>),
    Image(CowStr<'a>),
}

/// The block elements a pulldown-cmark start tag can open.
enum BlockStart<'a> {
    Paragraph,
    Heading(u32),
    BlockQuote,
    CodeBlock(CodeBlockKind<'a>),
    List(Option<u64>),
    Item,
    Table,
    TableHead,
    TableRow,
    TableCell,
    Other,
}

/// Tells the variants of a pulldown-cmark `Event` apart, moving each field
/// out (inline and display math both become `Math`).
#[verifier::external_body]
fn event_parts<'a>(e: Event<'a>) -> EventParts<'a> {
    match e {
        Event::Start(t) => EventParts::Start(t),
        Event::End(t) => EventParts::End(t),
        Event::Text(s) => EventParts::Text(s),
        Event::Code(s) => EventParts::Code(s),
        Event::InlineMath(s) | Event::DisplayMath(s) => EventParts::Math(s),
        Event::Html(s) => EventParts::Html(s),
        Event::InlineHtml(s) => EventParts::InlineHtml(s),
        Event::FootnoteReference(s) => EventParts::FootnoteReference(s),
        Event::SoftBreak => EventParts::SoftBreak,
        Event::HardBreak => EventParts::HardBreak,
        Event::Rule => EventParts::Rule,
        Event::TaskListMarker(b) => EventParts::TaskListMarker(b),
    }
}

/// Tells the inline variants of a pulldown-cmark `Tag` apart, moving the
/// destination URL of a link or an image out; any other tag comes back
/// unchanged.
#[verifier::external_body]
fn inline_start<'a>(t: Tag<'a>) -> Result<InlineStart<'a>, Tag<'a>> {
    match t {
        Tag::Emphasis => Ok(InlineStart::Emphasis),
        Tag::Strong => Ok(InlineStart::Strong),
        Tag::Strikethrough => Ok(InlineStart::Strikethrough),
        Tag::Link { dest_url, .. } => Ok(InlineStart::Link(dest_url)),
        Tag::Image { dest_url, .. } => Ok(InlineStart::Image(dest_url)),
        other => Err(other),
    }
}

/// Tells the block variants of a pulldown-cmark `Tag` apart, moving out the
/// heading level (as its number), the code block kind and the list start;
/// every other tag becomes `Other`.
#[verifier::external_body]
fn block_start<'a>(t: Tag<'a>) -> BlockStart<'a> {
    match t {
        Tag::Paragraph => BlockStart::Paragraph,
        Tag::Heading { level, .. } => BlockStart::Heading(level as u32),
        Tag::BlockQuote(_) => BlockStart::BlockQuote,
        Tag::CodeBlock(kind) => BlockStart::CodeBlock(kind),
        Tag::List(start) => BlockStart::List(start),
        Tag::Item => BlockStart::Item,
        Tag::Table(_) => BlockStart::Table,
        Tag::TableHead => BlockStart::TableHead,
        Tag::TableRow => BlockStart::TableRow,
        Tag::TableCell => BlockStart::TableCell,
        _ => BlockStart::Other,
    }
}

/// The info string of a fenced pulldown-cmark `CodeBlockKind`, `None` for an
/// indented one.
#[verifier::external_body]
fn fence_info<'a>(k: CodeBlockKind<'a>) -> Option<CowStr<'a>> {
    match k {
        CodeBlockKind::Fenced(info) => Some(info),
        CodeBlockKind::Indented => None,
    }
}

/// Tells the inline variants of a pulldown-cmark `TagEnd` apart; any other
/// end tag comes back unchanged.
#[verifier::external_body]
fn inline_end(t: TagEnd) -> Result<TagKind, TagEnd> {
    match t {
        TagEnd::Emphasis => Ok(TagKind::Emphasis),
        TagEnd::Strong => Ok(TagKind::Strong),
        TagEnd::Strikethrough => Ok(TagKind::Strikethrough),
        TagEnd::Link => Ok(TagKind::Link),
        TagEnd::Image => Ok(TagKind::Image),
        other => Err(other),
    }
}

/// Tells the block variants of a pulldown-cmark `TagEnd` apart; every other
/// end tag becomes `Other`.
#[verifier::external_body]
fn block_end(t: TagEnd) -> TagKind {
    match t {
        TagEnd::Paragraph => TagKind::Paragraph,
        TagEnd::Heading(_) => TagKind::Heading,
        TagEnd::BlockQuote(_) => TagKind::BlockQuote,
        TagEnd::CodeBlock => TagKind::CodeBlock,
        TagEnd::List(_) => TagKind::List,
        TagEnd::Item => TagKind::Item,
        TagEnd::Table => TagKind::Table,
        TagEnd::TableHead => TagKind::TableHead,
        TagEnd::TableRow => TagKind::TableRow,
        TagEnd::TableCell => TagKind::TableCell,
        _ => TagKind::Other,
    }
}

/// The characters of a pulldown-cmark `CowStr`, in order.
#[verifier::external_body]
fn cow_chars(s: CowStr<'_>) -> Vec<char> {
    s.chars().collect()
}

/// The start tag as the renderer reads it.
fn md_tag<'a>(t: Tag<'a>) -> MdTag {
    match inline_start(t) {
        Ok(InlineStart::Emphasis) => MdTag::Emphasis,
        Ok(InlineStart::Strong) => MdTag::Strong,
        Ok(InlineStart::Strikethrough) => MdTag::Strikethrough,
        Ok(InlineStart::Link(url)) => MdTag::Link(cow_chars(url)),
        Ok(InlineStart::Image(url)) => MdTag::Image(cow_chars(url)),
        Err(t) => match block_start(t) {
            BlockStart::Paragraph => MdTag::Paragraph,
            BlockStart::Heading(level) => MdTag::Heading(level),
            BlockStart::BlockQuote => MdTag::BlockQuote,
            BlockStart::CodeBlock(kind) => MdTag::CodeBlock(
                match fence_info(kind) {
                    Some(info) => Some(cow_chars(info)),
                    None => None,
                },
            ),
            BlockStart::List(start) => MdTag::List(start),
            BlockStart::Item => MdTag::Item,
            BlockStart::Table => MdTag::Table,
            BlockStart::TableHead => MdTag::TableHead,
            BlockStart::TableRow => MdTag::TableRow,
            BlockStart::TableCell => MdTag::TableCell,
            BlockStart::Other => MdTag::Other,
        },
    }
}

/// The end tag kind as the renderer reads it.
fn tag_kind(t: TagEnd) -> TagKind {
    match inline_end(t) {
        Ok(k) => k,
        Err(t) => block_end(t),
    }
}

/// A pulldown-cmark event as the renderer reads it.
fn md_event<'a>(e: Event<'a>) -> MdEvent {
    match event_parts(e) {
        EventParts::Start(t) => MdEvent::Start(md_tag(t)),
        EventParts::End(t) => MdEvent::End(tag_kind(t)),
        EventParts::Text(s) => MdEvent::Text(cow_chars(s)),
        EventParts::Code(s) => MdEvent::Code(cow_chars(s)),
        EventParts::Math(s) => MdEvent::Math(cow_chars(s)),
        EventParts::Html(s) => MdEvent::Html(cow_chars(s)),
        EventParts::InlineHtml(s) => MdEvent::InlineHtml(cow_chars(s)),
        EventParts::FootnoteReference(s) => MdEvent::FootnoteReference(cow_chars(s)),
        EventParts::SoftBreak => MdEvent::SoftBreak,
        EventParts::HardBreak => MdEvent::HardBreak,
        EventParts::Rule => MdEvent::Rule,
        EventParts::TaskListMarker(b) => MdEvent::TaskListMarker(b),
    }
}

/// The events pulldown-cmark's parser yields for the document `md` with the
/// extension bits `options`, each as the renderer reads it.
pub uninterp spec fn markdown_events(md: Seq<char>, options: u32) -> Seq<SpecEvent>;

/// Parses `md` with pulldown-cmark (`Parser::new_ext`, with the options whose
/// bits are set in `options`) and collects the events it yields. The parse
/// depends on the document and the options alone, so its result is named
/// `markdown_events`; what the events are is pulldown-cmark's CommonMark
/// parse and is not stated here.
#[verifier::external_body]
pub(crate) fn parse_events(md: &str, options: u32) -> (events: Vec<MdEvent>)
    ensures
        events_view(events@) == markdown_events(md@, options),
{
    let opts = Options::from_bits_truncate(options);
    Parser::new_ext(md, opts).map(|e| md_event(e)).collect()
}

} // verus!
