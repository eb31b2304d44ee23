use vstd::prelude::*;

verus! {

/// A format-independent document event.
#[derive(Debug, PartialEq)]
pub enum ElementEvent {
    Start(ElementStart),
    /// Ends the most recently started element.
    End,
    Text(String),
}

#[derive(Debug, PartialEq, Eq, Structural)]
pub struct ElementStart {
    pub variant: ElementStartVariant,
}

#[derive(Debug, Clone, Copy, PartialEq, Eq, Structural)]
pub enum ElementStartVariant {
    Paragraph,
}

/// The mathematical value of an `ElementEvent`.
pub enum DocEvent {
    Start(ElementStartVariant),
    End,
    Text(Seq<char>),
}

impl ElementStart {
    pub fn simple(variant: ElementStartVariant) -> (r: ElementStart)
        ensures
            r == (ElementStart { variant }),
    {
        ElementStart { variant }
    }

    pub fn variant(&self) -> (r: ElementStartVariant)
        ensures
            r == self.variant,
    {
        self.variant
    }
}

impl ElementEvent {
    pub open spec fn view(&self) -> DocEvent {
        match self {
            ElementEvent::Start(s) => DocEvent::Start(s.variant),
            ElementEvent::End => DocEvent::End,
            ElementEvent::Text(t) => DocEvent::Text(t@),
        }
    }
}

} // verus!
