//! The block-level markdown event stream that requirement extraction walks.
//! The CommonMark parse itself is pulldown-cmark's; this module hands its
//! events on as plain values.

use vstd::prelude::*;
use pulldown_cmark::{Event, Options, Parser, TagEnd};

verus! {

/// The elements whose boundaries the extraction follows.
pub enum MdTag {
    /// A heading, with its level (one to six).
    Heading(u8),
    Table,
    TableHead,
    TableRow,
    TableCell,
    Item,
    Other,
}

/// One event of the markdown stream.
pub enum MdEvent {
    Start(MdTag),
    End(MdTag),
    /// Inline text.
    Text(String),
    /// An inline code span's literal text.
    Code(String),
    Other,
}

/// The event stream that pulldown-cmark yields for a document, with tables
/// enabled.
pub uninterp spec fn markdown_events_of(content: Seq<char>) -> Seq<MdEvent>;

/// Relies on `pulldown_cmark::Parser::new_ext` with `Options::ENABLE_TABLES`:
/// the CommonMark event stream of the document, which depends on its text
/// alone. A start tag is read through `TagEnd::from`, which keeps its kind and
/// heading level.
#[verifier::external_body]
pub(crate) fn markdown_events(content: &str) -> (r: Vec<MdEvent>)
    ensures
        r@ == markdown_events_of(content@),
{
    let tag = |t: TagEnd| match t {
        TagEnd::Heading(level) => MdTag::Heading(level as u8),
        TagEnd::Table => MdTag::Table, TagEnd::TableHead => MdTag::TableHead,
        TagEnd::TableRow => MdTag::TableRow, TagEnd::TableCell => MdTag::TableCell,
        TagEnd::Item => MdTag::Item, _ => MdTag::Other,
    };
    Parser::new_ext(content, Options::ENABLE_TABLES).map(|e| match e {
        Event::Start(t) => MdEvent::Start(tag(TagEnd::from(t))),
        Event::End(t) => MdEvent::End(tag(t)),
        Event::Text(s) => MdEvent::Text(s.to_string()),
        Event::Code(s) => MdEvent::Code(s.to_string()),
        _ => MdEvent::Other,
    }).collect()
}

} // verus!
