//! The markdown event stream, as plain values.
//!
//! The outside parser walks the source and yields structural events with
//! byte ranges; this module converts them, one to one, into [`MdEvent`]
//! values that the verified chunk builder reduces. The event list is a
//! function of the source text alone, which the name [`md_events_of`]
//! stands for.

use vstd::prelude::*;
use crate::models::table::TableAlign;

verus! {

/// What a markdown event is: the constructs the chunk builder reads.
/// Everything else arrives as `Other` and is ignored.
pub enum MdEventKind {
    /// A text node (also inside headings, tables and images).
    Text(String),
    /// An inline code span.
    Code(String),
    SoftBreak,
    HardBreak,
    StartStrong,
    EndStrong,
    StartEmphasis,
    EndEmphasis,
    /// Heading with its level, 1 through 6.
    StartHeading(u8),
    EndHeading,
    /// Code block with the fenced language, or none for an indented block.
    StartCodeBlock(Option<String>),
    EndCodeBlock,
    StartParagraph,
    EndParagraph,
    /// Inline image with its destination URL.
    StartImage(String),
    EndImage,
    StartHtmlBlock,
    EndHtmlBlock,
    /// A run of raw HTML text.
    Html(String),
    /// Table with its column alignments.
    StartTable(Vec<TableAlign>),
    EndTable,
    StartTableHead,
    EndTableHead,
    StartTableRow,
    EndTableRow,
    StartTableCell,
    EndTableCell,
    Other,
}

/// A markdown event with the byte range of the source it covers.
pub struct MdEvent {
    pub kind: MdEventKind,
    pub start: usize,
    pub end: usize,
}

/// The event stream of a markdown source: what the outside parser yields,
/// converted event for event. A function of the source text alone.
pub uninterp spec fn md_events_of(source: Seq<char>) -> Seq<MdEvent>;

#[verifier::external_type_specification]
#[verifier::external_body]
pub struct ExEvent<'a>(pulldown_cmark::Event<'a>);

#[verifier::external_type_specification]
#[verifier::external_body]
pub struct ExTag<'a>(pulldown_cmark::Tag<'a>);

#[verifier::external_type_specification]
#[verifier::external_body]
pub struct ExTagEnd(pulldown_cmark::TagEnd);

#[verifier::external_type_specification]
#[verifier::external_body]
pub struct ExCodeBlockKind<'a>(pulldown_cmark::CodeBlockKind<'a>);

/// Relies on pulldown_cmark's `Parser::new_ext` and `into_offset_iter`
/// (tables and strikethrough enabled): the parse is deterministic, so the
/// converted event list is a function of the source text alone.
#[verifier::external_body]
pub fn parse_events(source: &str) -> (r: Vec<MdEvent>)
    ensures
        r@ == md_events_of(source@),
{
    let mut options = pulldown_cmark::Options::empty();
    options.insert(pulldown_cmark::Options::ENABLE_TABLES);
    options.insert(pulldown_cmark::Options::ENABLE_STRIKETHROUGH);
    let mut events = Vec::new();
    for (ev, range) in pulldown_cmark::Parser::new_ext(source, options).into_offset_iter() {
        events.push(convert_event(ev, range.start, range.end));
    }
    events
}

/// Conversion helper of `parse_events`: maps one pulldown_cmark `Event`
/// to its `MdEvent`, variant for variant, moving the payloads.
#[verifier::external_body]
fn convert_event(ev: pulldown_cmark::Event, start: usize, end: usize) -> MdEvent
{
    let kind = match ev {
        pulldown_cmark::Event::Start(t) => start_kind(t),
        pulldown_cmark::Event::End(t) => end_kind(t),
        pulldown_cmark::Event::Text(s) => MdEventKind::Text(s.to_string()),
        pulldown_cmark::Event::Code(s) => MdEventKind::Code(s.to_string()),
        pulldown_cmark::Event::Html(s) => MdEventKind::Html(s.to_string()),
        pulldown_cmark::Event::InlineHtml(s) => MdEventKind::Html(s.to_string()),
        pulldown_cmark::Event::SoftBreak => MdEventKind::SoftBreak,
        pulldown_cmark::Event::HardBreak => MdEventKind::HardBreak,
        _ => MdEventKind::Other,
    };
    MdEvent { kind, start, end }
}

/// Conversion helper of `parse_events`: maps one pulldown_cmark `Tag` to
/// the matching start event kind, variant for variant. Column alignments
/// go through their discriminant (pulldown_cmark declares none, left,
/// center, right in that order) into `TableAlign::from_code`.
#[verifier::external_body]
fn start_kind(t: pulldown_cmark::Tag) -> MdEventKind
{
    match t {
        pulldown_cmark::Tag::Strong => MdEventKind::StartStrong,
        pulldown_cmark::Tag::Emphasis => MdEventKind::StartEmphasis,
        pulldown_cmark::Tag::Heading { level, .. } => MdEventKind::StartHeading(level as u8),
        pulldown_cmark::Tag::CodeBlock(kind) => MdEventKind::StartCodeBlock(fenced_lang(kind)),
        pulldown_cmark::Tag::Paragraph => MdEventKind::StartParagraph,
        pulldown_cmark::Tag::Image { dest_url, .. } => MdEventKind::StartImage(dest_url.to_string()),
        pulldown_cmark::Tag::HtmlBlock => MdEventKind::StartHtmlBlock,
        pulldown_cmark::Tag::Table(aligns) => MdEventKind::StartTable(aligns.iter().map(|a| TableAlign::from_code(*a as u8)).collect()),
        pulldown_cmark::Tag::TableHead => MdEventKind::StartTableHead,
        pulldown_cmark::Tag::TableRow => MdEventKind::StartTableRow,
        pulldown_cmark::Tag::TableCell => MdEventKind::StartTableCell,
        _ => MdEventKind::Other,
    }
}

/// Conversion helper of `parse_events`: maps one pulldown_cmark `TagEnd`
/// to the matching end event kind, variant for variant.
#[verifier::external_body]
fn end_kind(t: pulldown_cmark::TagEnd) -> MdEventKind
{
    match t {
        pulldown_cmark::TagEnd::Strong => MdEventKind::EndStrong,
        pulldown_cmark::TagEnd::Emphasis => MdEventKind::EndEmphasis,
        pulldown_cmark::TagEnd::Heading(_) => MdEventKind::EndHeading,
        pulldown_cmark::TagEnd::CodeBlock => MdEventKind::EndCodeBlock,
        pulldown_cmark::TagEnd::Paragraph => MdEventKind::EndParagraph,
        pulldown_cmark::TagEnd::Image => MdEventKind::EndImage,
        pulldown_cmark::TagEnd::HtmlBlock => MdEventKind::EndHtmlBlock,
        pulldown_cmark::TagEnd::Table => MdEventKind::EndTable,
        pulldown_cmark::TagEnd::TableHead => MdEventKind::EndTableHead,
        pulldown_cmark::TagEnd::TableRow => MdEventKind::EndTableRow,
        pulldown_cmark::TagEnd::TableCell => MdEventKind::EndTableCell,
        _ => MdEventKind::Other,
    }
}

/// Conversion helper of `parse_events`: the language of a pulldown_cmark
/// `CodeBlockKind`, fenced blocks keeping their tag.
#[verifier::external_body]
fn fenced_lang(kind: pulldown_cmark::CodeBlockKind) -> Option<String>
{
    match kind {
        pulldown_cmark::CodeBlockKind::Fenced(lang) => Some(lang.to_string()),
        pulldown_cmark::CodeBlockKind::Indented => None,
    }
}

} // verus!
