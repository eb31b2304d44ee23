use crate::constants::WORD_2006;
use crate::errors::ParseError;
use crate::events::{DocEvent, ElementEvent, ElementStart, ElementStartVariant};
use crate::parsers::xml::common::{Event, ParseState, Tag, TagView, XmlEventView};
use crate::parsers::{delivered, emitted};
use vstd::prelude::*;

verus! {

/// A tag of the word-processing namespace.
pub open spec fn word_tag(name: Seq<char>) -> TagView {
    (WORD_2006@, name)
}

/// The tags that start an element, and thus need an `End` when they close.
pub open spec fn is_processed_tag(t: TagView) -> bool {
    t == word_tag("p"@)
}

/// The document events that the Office Open XML mapping gives for one event of the
/// driver, with `open` the tags open at that moment.
pub open spec fn ooxml_events(ev: XmlEventView, open: Seq<TagView>) -> Seq<DocEvent> {
    match ev {
        XmlEventView::TagAboutToOpen(t) => if t == word_tag("p"@) {
            seq![DocEvent::Start(ElementStartVariant::Paragraph)]
        } else {
            Seq::empty()
        },
        XmlEventView::TagClosed(t) => if is_processed_tag(t) {
            seq![DocEvent::End]
        } else {
            Seq::empty()
        },
        XmlEventView::Text(s) => if open.len() > 0 && open.last() == word_tag("t"@) {
            seq![DocEvent::Text(s)]
        } else {
            Seq::empty()
        },
    }
}

/// A subparser for the Office Open XML format (used by docx).
pub struct Parser {}

impl Parser {
    pub fn new() -> (r: Parser) {
        Parser {}
    }

    fn is_processed(tag: &Tag) -> (r: bool)
        ensures
            r == is_processed_tag(tag@),
    {
        tag.matches(WORD_2006, "p")
    }

    fn handle_text(
        &self,
        text: &str,
        parse_state: &ParseState,
        out: &mut Vec<Result<ElementEvent, ParseError>>,
    )
        ensures
            old(out)@.is_prefix_of(final(out)@),
            emitted(final(out)@) == emitted(old(out)@) + delivered(
                ooxml_events(XmlEventView::Text(text@), parse_state@),
            ),
    {
        let ghost ev = ooxml_events(XmlEventView::Text(text@), parse_state@);
        if let Some(tag) = parse_state.last_opened_tag() {
            if tag.matches(WORD_2006, "t") {
                out.push(Ok(ElementEvent::Text(text.to_owned())));
                assert(emitted(out@) =~= emitted(old(out)@) + delivered(ev));
                return;
            }
        }
        assert(emitted(out@) =~= emitted(old(out)@) + delivered(ev));
    }

    fn handle_opening_tag(&self, tag: &Tag, out: &mut Vec<Result<ElementEvent, ParseError>>)
        ensures
            old(out)@.is_prefix_of(final(out)@),
            emitted(final(out)@) == emitted(old(out)@) + delivered(
                ooxml_events(XmlEventView::TagAboutToOpen(tag@), Seq::empty()),
            ),
    {
        let ghost ev = ooxml_events(XmlEventView::TagAboutToOpen(tag@), Seq::empty());
        if tag.matches(WORD_2006, "p") {
            out.push(Ok(ElementEvent::Start(ElementStart::simple(ElementStartVariant::Paragraph))));
        }
        assert(emitted(out@) =~= emitted(old(out)@) + delivered(ev));
    }

    fn handle_closing_tag(&self, tag: &Tag, out: &mut Vec<Result<ElementEvent, ParseError>>)
        ensures
            old(out)@.is_prefix_of(final(out)@),
            emitted(final(out)@) == emitted(old(out)@) + delivered(
                ooxml_events(XmlEventView::TagClosed(tag@), Seq::empty()),
            ),
    {
        let ghost ev = ooxml_events(XmlEventView::TagClosed(tag@), Seq::empty());
        if Parser::is_processed(tag) {
            out.push(Ok(ElementEvent::End));
        }
        assert(emitted(out@) =~= emitted(old(out)@) + delivered(ev));
    }

    /// Appends to `out` the document events for `event`, with `parse_state` the tags
    /// open at that moment.
    pub fn handle_xml_event(
        &self,
        event: &Event,
        parse_state: &ParseState,
        out: &mut Vec<Result<ElementEvent, ParseError>>,
    )
        ensures
            old(out)@.is_prefix_of(final(out)@),
            emitted(final(out)@) == emitted(old(out)@) + delivered(
                ooxml_events(event.view(), parse_state@),
            ),
    {
        match event {
            Event::Text(text) => self.handle_text(text, parse_state, out),
            Event::TagAboutToOpen(tag) => self.handle_opening_tag(tag, out),
            Event::TagClosed(tag) => self.handle_closing_tag(tag, out),
        }
    }
}

} // verus!
