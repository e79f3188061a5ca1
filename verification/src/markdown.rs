//! Markdown-to-HTML rendering for chat messages. The text is parsed into
//! events, raw HTML in the (untrusted) model output is turned into plain
//! text so that it is escaped, single newlines become line breaks, and the
//! events are rendered. The result is safe to inject as HTML.

use pulldown_cmark::{html, Event, Options, Parser};
use vstd::prelude::*;

verus! {

#[verifier::external_type_specification]
#[verifier::external_body]
pub struct ExMarkdownEvent<'a>(Event<'a>);

/// One parsed Markdown event. The events the renderer inspects or makes
/// (text, raw HTML blocks and inline HTML, soft and hard line breaks) are
/// held as plain values; every other event (the start and end of an
/// element, code, math, footnote references, rules, task-list markers) is
/// carried unchanged.
#[derive(Debug)]
pub enum MdEvent {
    /// A text node.
    Text(String),
    /// A block of raw HTML.
    Html(String),
    /// Inline raw HTML.
    InlineHtml(String),
    /// A single newline inside a paragraph.
    SoftBreak,
    /// A line break.
    HardBreak,
    /// Any other event.
    Other(Event<'static>),
}

/// The events `pulldown_cmark::Parser::new_ext` yields for `text`, with the
/// tables and strikethrough extensions switched on as the flags say.
pub uninterp spec fn parsed_markdown(text: Seq<char>, tables: bool, strikethrough: bool) -> Seq<MdEvent>;

/// The HTML `pulldown_cmark::html::push_html` writes for `events`.
pub uninterp spec fn html_of(events: Seq<MdEvent>) -> Seq<char>;

/// Calls `pulldown_cmark::Parser::new_ext` on `text`, with the tables and
/// strikethrough options set as the flags say, and collects its events,
/// each converted one for one (text, HTML, inline HTML and the two breaks to
/// their own variants, any other event carried in `Other`). The events are
/// a function of the arguments alone, named [`parsed_markdown`].
#[verifier::external_body]
fn markdown_events(text: &str, tables: bool, strikethrough: bool) -> (v: Vec<MdEvent>)
    ensures
        v@ == parsed_markdown(text@, tables, strikethrough),
{
    let mut options = Options::empty();
    options.set(Options::ENABLE_TABLES, tables);
    options.set(Options::ENABLE_STRIKETHROUGH, strikethrough);
    Parser::new_ext(text, options).map(|e| match e {
        Event::Text(s) => MdEvent::Text(s.into_string()),
        Event::Html(s) => MdEvent::Html(s.into_string()),
        Event::InlineHtml(s) => MdEvent::InlineHtml(s.into_string()),
        Event::SoftBreak => MdEvent::SoftBreak,
        Event::HardBreak => MdEvent::HardBreak,
        other => MdEvent::Other(other.into_static()),
    }).collect()
}

/// Calls `pulldown_cmark::html::push_html` on an empty string with the
/// events, each converted back one for one. The HTML is a function of the
/// events alone, named [`html_of`]. (`push_html` unwraps the result of
/// writing into a `String`, which cannot fail.)
#[verifier::external_body]
fn events_html(events: Vec<MdEvent>) -> (s: String)
    ensures
        s@ == html_of(events@),
{
    let mut out = String::new();
    let events = events.into_iter().map(|e| match e {
        MdEvent::Text(s) => Event::Text(s.into()),
        MdEvent::Html(s) => Event::Html(s.into()),
        MdEvent::InlineHtml(s) => Event::InlineHtml(s.into()),
        MdEvent::SoftBreak => Event::SoftBreak,
        MdEvent::HardBreak => Event::HardBreak,
        MdEvent::Other(e) => e,
    });
    html::push_html(&mut out, events);
    out
}

/// An event made safe and line-preserving: raw HTML becomes text (so the
/// renderer escapes it), a soft break becomes a hard one; any other event
/// is left as it is.
pub open spec fn sanitized_event(e: MdEvent) -> MdEvent {
    match e {
        MdEvent::Html(s) => MdEvent::Text(s),
        MdEvent::InlineHtml(s) => MdEvent::Text(s),
        MdEvent::SoftBreak => MdEvent::HardBreak,
        other => other,
    }
}

/// Every event of `events` sanitized, in order.
pub open spec fn sanitized(events: Seq<MdEvent>) -> Seq<MdEvent> {
    events.map_values(|e: MdEvent| sanitized_event(e))
}

fn sanitize_event(e: MdEvent) -> (r: MdEvent)
    ensures
        r == sanitized_event(e),
{
    match e {
        MdEvent::Html(s) => MdEvent::Text(s),
        MdEvent::InlineHtml(s) => MdEvent::Text(s),
        MdEvent::SoftBreak => MdEvent::HardBreak,
        other => other,
    }
}

/// Turns raw HTML into text and soft breaks into hard ones, event by event.
pub fn sanitize(events: Vec<MdEvent>) -> (r: Vec<MdEvent>)
    ensures
        r@ == sanitized(events@),
{
    let ghost orig = events@;
    let mut rest = events;
    let mut reversed: Vec<MdEvent> = Vec::new();
    loop
        invariant
            rest@ == orig.subrange(0, rest@.len() as int),
            rest@.len() + reversed@.len() == orig.len(),
            forall|k: int|
                0 <= k < reversed@.len() ==> #[trigger] reversed@[k] == orig[orig.len() - 1 - k],
        ensures
            reversed@.len() == orig.len(),
            forall|k: int|
                0 <= k < reversed@.len() ==> #[trigger] reversed@[k] == orig[orig.len() - 1 - k],
        decreases rest@.len(),
    {
        match rest.pop() {
            Some(e) => {
                reversed.push(e);
            },
            None => {
                break;
            },
        }
    }
    let mut out: Vec<MdEvent> = Vec::new();
    loop
        invariant
            out@.len() + reversed@.len() == orig.len(),
            forall|k: int|
                0 <= k < reversed@.len() ==> #[trigger] reversed@[k] == orig[orig.len() - 1 - k],
            forall|k: int| 0 <= k < out@.len() ==> #[trigger] out@[k] == sanitized_event(orig[k]),
        ensures
            out@.len() == orig.len(),
            forall|k: int| 0 <= k < out@.len() ==> #[trigger] out@[k] == sanitized_event(orig[k]),
        decreases reversed@.len(),
    {
        match reversed.pop() {
            Some(e) => {
                out.push(sanitize_event(e));
            },
            None => {
                break;
            },
        }
    }
    assert(out@ =~= sanitized(orig));
    out
}

/// Renders chat Markdown to HTML that is safe to inject: tables and
/// strikethrough on, raw HTML escaped (it is rendered as text), single
/// newlines kept as line breaks.
pub fn render_markdown(text: &str) -> (s: String)
    ensures
        s@ == html_of(sanitized(parsed_markdown(text@, true, true))),
{
    events_html(sanitize(markdown_events(text, true, true)))
}

} // verus!
