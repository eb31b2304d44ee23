use crate::errors::ParseError;
use crate::events::{DocEvent, ElementEvent};
use vstd::prelude::*;

pub mod xml;

verus! {

/// What a consumer receives, as a mathematical value: an event, an invalid-input error
/// with its explanation, or an input/output error.
pub enum Emitted {
    Event(DocEvent),
    InvalidInput(Seq<char>),
    Io,
}

pub open spec fn emitted_of(r: Result<ElementEvent, ParseError>) -> Emitted {
    match r {
        Ok(e) => Emitted::Event(e.view()),
        Err(ParseError::InvalidInput { explanation }) => Emitted::InvalidInput(explanation@),
        Err(ParseError::Io { .. }) => Emitted::Io,
    }
}

/// The values received by a consumer that collects them in a vector.
pub open spec fn emitted(v: Seq<Result<ElementEvent, ParseError>>) -> Seq<Emitted> {
    v.map_values(|r: Result<ElementEvent, ParseError>| emitted_of(r))
}

/// Document events, as received by a consumer.
pub open spec fn delivered(s: Seq<DocEvent>) -> Seq<Emitted> {
    s.map_values(|d: DocEvent| Emitted::Event(d))
}

} // verus!
