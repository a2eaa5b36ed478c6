//! The Markdown event stream the deck parser consumes, produced by
//! pulldown-cmark and carried as plain values.
use vstd::prelude::*;
use pulldown_cmark::{CodeBlockKind, Event, Options, Parser, Tag, TagEnd};
use crate::text::string_of;

verus! {

#[verifier::external_type_specification]
#[verifier::external_body]
pub struct ExCmarkEvent<'a>(Event<'a>);

#[verifier::external_type_specification]
#[verifier::external_body]
pub struct ExCmarkTag<'a>(Tag<'a>);

#[verifier::external_type_specification]
#[verifier::external_body]
pub struct ExCmarkTagEnd(TagEnd);

/// The kinds of Markdown elements the deck parser tells apart.
#[derive(Debug, Clone, Copy, PartialEq, Eq, Structural)]
pub enum MdTag {
    Paragraph,
    Heading,
    BlockQuote,
    CodeBlock,
    List,
    Item,
    Table,
    TableHead,
    TableRow,
    TableCell,
    Emphasis,
    Strong,
    Strikethrough,
    Link,
    Image,
    Other,
}

/// One Markdown event, with the data the deck parser reads.
#[derive(Debug)]
pub enum MdEvent {
    /// Start of an element that carries no data the parser reads.
    Start(MdTag),
    StartHeading(usize),
    /// Start of a code block with its language (empty when indented).
    StartCodeBlock(String),
    StartList(Option<u64>),
    StartLink(String),
    StartImage(String),
    End(MdTag),
    Text(String),
    Code(String),
    Html(String),
    SoftBreak,
    HardBreak,
    Rule,
    TaskListMarker(bool),
    Other,
}

/// The view of an event: its strings as character sequences.
pub enum MdEv {
    Start(MdTag),
    StartHeading(usize),
    StartCodeBlock(Seq<char>),
    StartList(Option<u64>),
    StartLink(Seq<char>),
    StartImage(Seq<char>),
    End(MdTag),
    Text(Seq<char>),
    Code(Seq<char>),
    Html(Seq<char>),
    SoftBreak,
    HardBreak,
    Rule,
    TaskListMarker(bool),
    Other,
}

impl View for MdEvent {
    type V = MdEv;

    open spec fn view(&self) -> MdEv {
        match self {
            MdEvent::Start(t) => MdEv::Start(*t),
            MdEvent::StartHeading(l) => MdEv::StartHeading(*l),
            MdEvent::StartCodeBlock(l) => MdEv::StartCodeBlock(l@),
            MdEvent::StartList(n) => MdEv::StartList(*n),
            MdEvent::StartLink(u) => MdEv::StartLink(u@),
            MdEvent::StartImage(u) => MdEv::StartImage(u@),
            MdEvent::End(t) => MdEv::End(*t),
            MdEvent::Text(s) => MdEv::Text(s@),
            MdEvent::Code(s) => MdEv::Code(s@),
            MdEvent::Html(s) => MdEv::Html(s@),
            MdEvent::SoftBreak => MdEv::SoftBreak,
            MdEvent::HardBreak => MdEv::HardBreak,
            MdEvent::Rule => MdEv::Rule,
            MdEvent::TaskListMarker(b) => MdEv::TaskListMarker(*b),
            MdEvent::Other => MdEv::Other,
        }
    }
}

pub open spec fn evs(v: Seq<MdEvent>) -> Seq<MdEv> {
    v.map_values(|e: MdEvent| e@)
}

/// The events that pulldown-cmark (with `Options::all()`) yields for a text,
/// each converted one for one into an `MdEv`.
pub uninterp spec fn cmark_events(text: Seq<char>) -> Seq<MdEv>;

/// Converts a block-level pulldown-cmark end tag, variant by variant.
#[verifier::external_body]
fn block_kind(t: TagEnd) -> MdTag {
    match t {
        TagEnd::Paragraph => MdTag::Paragraph,
        TagEnd::Heading(_) => MdTag::Heading,
        TagEnd::BlockQuote(_) => MdTag::BlockQuote,
        TagEnd::CodeBlock => MdTag::CodeBlock,
        TagEnd::List(_) => MdTag::List,
        TagEnd::Item => MdTag::Item,
        TagEnd::Table => MdTag::Table,
        TagEnd::TableHead => MdTag::TableHead,
        TagEnd::TableRow => MdTag::TableRow,
        TagEnd::TableCell => MdTag::TableCell,
        _ => MdTag::Other,
    }
}

/// Converts a pulldown-cmark end tag, variant by variant.
#[verifier::external_body]
fn tag_kind(t: TagEnd) -> MdTag {
    match t {
        TagEnd::Emphasis => MdTag::Emphasis,
        TagEnd::Strong => MdTag::Strong,
        TagEnd::Strikethrough => MdTag::Strikethrough,
        TagEnd::Link => MdTag::Link,
        TagEnd::Image => MdTag::Image,
        other => block_kind(other),
    }
}

/// Converts a pulldown-cmark start tag, variant by variant; tags whose data
/// the parser does not read become `Start` of their kind (`Tag::to_end`).
#[verifier::external_body]
fn start_event(t: Tag<'_>) -> MdEvent {
    match t {
        Tag::Heading { level, .. } => MdEvent::StartHeading(level as usize),
        Tag::CodeBlock(CodeBlockKind::Fenced(lang)) => MdEvent::StartCodeBlock(lang.to_string()),
        Tag::CodeBlock(CodeBlockKind::Indented) => MdEvent::StartCodeBlock(String::new()),
        Tag::List(start) => MdEvent::StartList(start),
        Tag::Link { dest_url, .. } => MdEvent::StartLink(dest_url.to_string()),
        Tag::Image { dest_url, .. } => MdEvent::StartImage(dest_url.to_string()),
        other => MdEvent::Start(tag_kind(other.to_end())),
    }
}

/// Converts a pulldown-cmark event, variant by variant.
#[verifier::external_body]
fn event_of(e: Event<'_>) -> MdEvent {
    match e {
        Event::Start(t) => start_event(t),
        Event::End(t) => MdEvent::End(tag_kind(t)),
        Event::Text(s) => MdEvent::Text(s.to_string()),
        Event::Code(s) => MdEvent::Code(s.to_string()),
        Event::Html(s) => MdEvent::Html(s.to_string()),
        Event::SoftBreak => MdEvent::SoftBreak,
        Event::HardBreak => MdEvent::HardBreak,
        Event::Rule => MdEvent::Rule,
        Event::TaskListMarker(b) => MdEvent::TaskListMarker(b),
        _ => MdEvent::Other,
    }
}

/// Runs pulldown-cmark's `Parser::new_ext` with `Options::all()` over the
/// text and converts each event it yields. What pulldown-cmark yields is a
/// function of the text alone and is named `cmark_events`; the CommonMark
/// grammar itself is not restated here.
#[verifier::external_body]
pub(crate) fn markdown_events(text: &str) -> (r: Vec<MdEvent>)
    ensures
        evs(r@) == cmark_events(text@),
{
    Parser::new_ext(text, Options::all()).map(event_of).collect()
}

/// The events of a text given as characters.
pub fn markdown_events_of(text: &Vec<char>) -> (r: Vec<MdEvent>)
    ensures
        evs(r@) == cmark_events(text@),
{
    let s = string_of(text);
    markdown_events(s.as_str())
}

} // verus!
