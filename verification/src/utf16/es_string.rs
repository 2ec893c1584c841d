//! Owned and borrowed ECMAScript strings.
use vstd::prelude::*;

use crate::string::es_str::display_units;
use crate::unicode::display_text;

verus! {

/// An owned ECMAScript string: a sequence of UTF-16 code units.
#[derive(Clone, Debug, PartialEq, Eq)]
pub struct EsString(Vec<u16>);

impl View for EsString {
    type V = Seq<u16>;

    /// The code units of the string.
    closed spec fn view(&self) -> Seq<u16> {
        self.0@
    }
}

impl EsString {
    /// The string of code units `char_code`.
    pub fn from_char_code(char_code: Vec<u16>) -> (r: EsString)
        ensures
            r@ == char_code@,
    {
        EsString(char_code)
    }

    /// A borrowed view of the string.
    pub fn as_es_str(&self) -> (r: EsStr<'_>)
        ensures
            r@ == self@,
    {
        EsStr(self.0.as_slice())
    }

    /// The text of the string: its code points, each unpaired surrogate replaced by
    /// U+FFFD.
    pub fn to_string(&self) -> (r: String)
        ensures
            r@ == display_text(self@),
    {
        display_units(self.0.as_slice())
    }
}

/// A borrowed ECMAScript string: a slice of UTF-16 code units.
#[derive(Clone, Copy, Debug, PartialEq, Eq)]
pub struct EsStr<'a>(&'a [u16]);

impl<'a> View for EsStr<'a> {
    type V = Seq<u16>;

    /// The code units of the string.
    closed spec fn view(&self) -> Seq<u16> {
        self.0@
    }
}

impl<'a> EsStr<'a> {
    /// The code units of the string, in order.
    pub fn as_u16s(&self) -> (r: &'a [u16])
        ensures
            r@ == self@,
    {
        self.0
    }

    /// The text of the string: its code points, each unpaired surrogate replaced by
    /// U+FFFD.
    pub fn to_string(&self) -> (r: String)
        ensures
            r@ == display_text(self@),
    {
        display_units(self.0)
    }
}

} // verus!
