//! The errors of this library.

use vstd::prelude::*;

verus! {

/// An error of this library, with its cause in words.
#[derive(Debug)]
pub enum XMLError {
    /// An element or a text could not be inserted into the tree.
    InsertError(String),
    /// The output could not be written.
    IOError(String),
}

/// The cause given when a child is added to an element that holds text.
pub open spec fn child_in_text_cause() -> Seq<char> {
    "Cannot insert child inside an element with text"@
}

/// The cause given when text is added to an element that is not empty.
pub open spec fn text_in_nonempty_cause() -> Seq<char> {
    "Cannot insert text in a non-empty element"@
}

impl XMLError {
    /// The error in words: what failed, then the cause.
    pub open spec fn text(self) -> Seq<char> {
        match self {
            XMLError::InsertError(cause) => "Error encountered during insertion: "@ + cause@,
            XMLError::IOError(cause) => "Error encountered during write: "@ + cause@,
        }
    }

    /// Returns the error in words: what failed, then the cause.
    pub fn to_string(&self) -> (s: String)
        ensures
            s@ == self.text(),
    {
        match self {
            XMLError::InsertError(cause) => {
                String::from_str("Error encountered during insertion: ").concat(cause.as_str())
            },
            XMLError::IOError(cause) => {
                String::from_str("Error encountered during write: ").concat(cause.as_str())
            },
        }
    }
}

} // verus!
