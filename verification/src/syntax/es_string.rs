//! The string type of the syntax tree: owned and borrowed ECMAScript strings.
use vstd::prelude::*;

use crate::string::code_point::{array_vec_as_slice, CodePoint};
use crate::string::es_str::display_units;
use crate::string::es_string::chars_as_code_points;
use crate::unicode::{display_text, encode, encode_all};

verus! {

/// An owned ECMAScript string: a sequence of UTF-16 code units.
#[derive(Clone, Debug, PartialEq, Eq)]
pub struct EsString(Vec<u16>);

impl View for EsString {
    type V = Seq<u16>;

    /// The code units of the string.
    closed spec fn view(&self) -> Seq<u16> {
        self.0@
    }
}

impl Default for EsString {
    /// The empty string.
    fn default() -> (r: EsString)
        ensures
            r@ == Seq::<u16>::empty(),
    {
        EsString(Vec::new())
    }
}

impl EsString {
    /// The empty string.
    pub fn new() -> (r: EsString)
        ensures
            r@ == Seq::<u16>::empty(),
    {
        EsString(Vec::new())
    }

    /// The string of code units `char_code`.
    pub fn from_char_code(char_code: Vec<u16>) -> (r: EsString)
        ensures
            r@ == char_code@,
    {
        EsString(char_code)
    }

    /// The UTF-16 encoding of the chars of `value`.
    pub fn from(value: &str) -> (r: EsString)
        ensures
            r@ == encode_all(chars_as_code_points(value@)),
    {
        let mut s = EsString::new();
        let n = value.unicode_len();
        let mut i: usize = 0;
        while i < n
            invariant
                n == value@.len(),
                i <= n,
                s@ == encode_all(chars_as_code_points(value@.subrange(0, i as int))),
            decreases n - i,
        {
            let c = value.get_char(i);
            s.push_code_point(CodePoint::from_char(c));
            proof {
                let pre = chars_as_code_points(value@.subrange(0, i as int));
                let next = chars_as_code_points(value@.subrange(0, i + 1));
                assert(next.drop_last() =~= pre);
                assert(next.last() == c as u32);
            }
            i = i + 1;
        }
        proof {
            assert(value@.subrange(0, i as int) =~= value@);
        }
        s
    }

    /// A borrowed view of the string.
    pub fn as_es_str(&self) -> (r: EsStr<'_>)
        ensures
            r@ == self@,
    {
        EsStr::from_u16s(self.0.as_slice())
    }

    /// Appends one code unit.
    pub fn push_char_code(&mut self, ch: u16)
        ensures
            final(self)@ == old(self)@.push(ch),
    {
        self.0.push(ch);
    }

    /// Appends the UTF-16 encoding of a code point.
    pub fn push_code_point(&mut self, cp: CodePoint)
        ensures
            final(self)@ == old(self)@ + encode(cp@),
    {
        let units = cp.encode_utf16();
        let ghost before = self.0@;
        self.0.extend_from_slice(array_vec_as_slice(&units));
        proof {
            assert(self.0@ =~= before + encode(cp@));
        }
    }

    /// Whether the string has no code units.
    pub fn is_empty(&self) -> (r: bool)
        ensures
            r == (self@.len() == 0),
    {
        self.0.is_empty()
    }

    /// The text of the string: its code points, each unpaired surrogate replaced by
    /// U+FFFD.
    pub fn to_string(&self) -> (r: String)
        ensures
            r@ == display_text(self@),
    {
        display_units(self.0.as_slice())
    }
}

/// A borrowed ECMAScript string: a slice of UTF-16 code units.
#[derive(Clone, Copy, Debug, PartialEq, Eq, PartialOrd, Ord)]
pub struct EsStr<'a>(&'a [u16]);

impl<'a> View for EsStr<'a> {
    type V = Seq<u16>;

    /// The code units of the string.
    closed spec fn view(&self) -> Seq<u16> {
        self.0@
    }
}

impl<'a> EsStr<'a> {
    /// The string of code units `from`.
    pub fn from_u16s(from: &'a [u16]) -> (r: EsStr<'a>)
        ensures
            r@ == from@,
    {
        EsStr(from)
    }

    /// The code units of the string, in order.
    pub fn as_u16s(&self) -> (r: &'a [u16])
        ensures
            r@ == self@,
    {
        self.0
    }

    /// An owned copy of the string.
    pub fn to_owned(&self) -> (r: EsString)
        ensures
            r@ == self@,
    {
        let mut v: Vec<u16> = Vec::new();
        let mut i: usize = 0;
        while i < self.0.len()
            invariant
                i <= self@.len(),
                v@ == self@.subrange(0, i as int),
            decreases self@.len() - i,
        {
            v.push(self.0[i]);
            i = i + 1;
            proof {
                assert(v@ =~= self@.subrange(0, i as int));
            }
        }
        proof {
            assert(self@.subrange(0, i as int) =~= self@);
        }
        EsString::from_char_code(v)
    }

    /// The text of the string: its code points, each unpaired surrogate replaced by
    /// U+FFFD.
    pub fn to_string(&self) -> (r: String)
        ensures
            r@ == display_text(self@),
    {
        display_units(self.0)
    }
}

} // verus!
