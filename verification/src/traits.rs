//! Conversion of values into elements.

use crate::xmlelement::XMLElement;
use crate::xmlerror::XMLError;
use vstd::prelude::*;

verus! {

/// A value that can be turned into an element.
///
/// To be implemented by the types that a tree is built from.
pub trait ToXMLElement {
    /// Turns the value into an element, or says why it cannot be one.
    fn to_xmlelement(self) -> Result<XMLElement, XMLError>;
}

} // verus!
