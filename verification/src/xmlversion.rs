//! The XML versions a document can declare.

use vstd::prelude::*;

verus! {

/// The XML versions a document can declare.
pub enum XMLVersion {
    /// XML version 1.0, first defined in 1998.
    XML1_0,
    /// XML version 1.1, first defined in 2004.
    XML1_1,
}

impl XMLVersion {
    /// The version number as a document header holds it.
    pub open spec fn text(self) -> Seq<char> {
        match self {
            XMLVersion::XML1_0 => "1.0"@,
            XMLVersion::XML1_1 => "1.1"@,
        }
    }

    /// Returns the version number: `1.0` or `1.1`.
    pub fn to_string(&self) -> (s: String)
        ensures
            s@ == self.text(),
    {
        match self {
            XMLVersion::XML1_0 => String::from_str("1.0"),
            XMLVersion::XML1_1 => String::from_str("1.1"),
        }
    }
}

} // verus!
