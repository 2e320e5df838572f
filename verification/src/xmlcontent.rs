//! What an element holds between its tags.

use crate::xmlelement::XMLElement;
use vstd::prelude::*;

verus! {

/// The content of an element: nothing, child elements, or text.
pub(crate) enum XMLElementContent {
    /// No content.
    Empty,
    /// Child elements, in document order.
    Elements(Vec<XMLElement>),
    /// Text.
    Text(String),
}

} // verus!
