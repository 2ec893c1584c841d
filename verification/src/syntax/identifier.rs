//! Identifier names.
use vstd::prelude::*;

verus! {

/// The name of an identifier or keyword.
#[derive(Debug, Clone, PartialEq, Eq)]
pub struct IdentifierName(String);

impl View for IdentifierName {
    type V = Seq<char>;

    /// The chars of the name.
    closed spec fn view(&self) -> Seq<char> {
        self.0@
    }
}

impl IdentifierName {
    /// The name as a string slice.
    pub fn as_str(&self) -> (r: &str)
        ensures
            r@ == self@,
    {
        self.0.as_str()
    }

    /// The name as a `String`.
    pub fn into_string(self) -> (r: String)
        ensures
            r@ == self@,
    {
        self.0
    }

    /// The text of the name.
    pub fn to_string(&self) -> (r: String)
        ensures
            r@ == self@,
    {
        self.0.clone()
    }
}

} // verus!
