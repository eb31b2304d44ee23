use vstd::prelude::*;

verus! {

/// The namespace of the word-processing markup of Office Open XML.
pub const WORD_2006: &'static str = "http://schemas.openxmlformats.org/wordprocessingml/2006/main";

} // verus!
