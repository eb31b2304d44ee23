use crate::constants::WORD_2006;
use crate::errors::ParseError;
use crate::events::{DocEvent, ElementEvent};
use crate::parsers::xml::common::{Event, ParseState, TagView, XmlEventView};
use crate::parsers::{delivered, emitted};
use vstd::prelude::*;

pub mod ooxml;

verus! {

/// Tells whether a subparser is known for the namespace.
pub open spec fn has_subparser(ns: Seq<char>) -> bool {
    ns == WORD_2006@
}

/// The document events that the subparser of namespace `ns` gives for one event of
/// the driver: none where no subparser is known for `ns`.
pub open spec fn subparser_events(ns: Seq<char>, ev: XmlEventView, open: Seq<TagView>) -> Seq<
    DocEvent,
> {
    if ns == WORD_2006@ {
        ooxml::ooxml_events(ev, open)
    } else {
        Seq::empty()
    }
}

/// A format-specific translator from the driver's events to document events, one
/// variant per supported namespace.
pub enum Subparser {
    Ooxml(ooxml::Parser),
}

impl Subparser {
    /// The namespace that this subparser serves.
    pub open spec fn serves(&self) -> Seq<char> {
        match self {
            Subparser::Ooxml(_) => WORD_2006@,
        }
    }

    /// A new subparser for the namespace, where one is known.
    pub fn for_namespace(namespace: &str) -> (r: Option<Subparser>)
        ensures
            r is Some <==> has_subparser(namespace@),
            r is Some ==> r->0.serves() == namespace@,
    {
        if crate::parsers::xml::common::str_eq(namespace, WORD_2006) {
            Some(Subparser::Ooxml(ooxml::Parser::new()))
        } else {
            None
        }
    }

    /// Appends to `out` the document events for `event`, with `parse_state` the tags
    /// open at that moment.
    pub fn handle_xml_event(
        &self,
        event: &Event,
        parse_state: &ParseState,
        out: &mut Vec<Result<ElementEvent, ParseError>>,
    )
        ensures
            old(out)@.is_prefix_of(final(out)@),
            emitted(final(out)@) == emitted(old(out)@) + delivered(
                subparser_events(self.serves(), event.view(), parse_state@),
            ),
    {
        match self {
            Subparser::Ooxml(p) => p.handle_xml_event(event, parse_state, out),
        }
    }
}

} // verus!
