//! Owned ECMAScript strings.
use vstd::prelude::*;

use crate::string::code_point::{array_vec_as_slice, code_units_of, CodePoint};
use crate::string::es_str::{display_units, EsStr};
use crate::unicode::{
    all_valid, decode, display_char, display_text, encode, encode_all, lemma_decode_encode,
    max_code_point, no_split_pairs,
};

verus! {

/// An owned ECMAScript string: a sequence of UTF-16 code units, which need not be
/// well-formed UTF-16.
#[derive(Clone, Debug, PartialEq, Eq)]
pub struct EsString(Vec<u16>);

impl View for EsString {
    type V = Seq<u16>;

    /// The code units of the string.
    closed spec fn view(&self) -> Seq<u16> {
        self.0@
    }
}

/// The numbers of a sequence of chars.
pub open spec fn chars_as_code_points(s: Seq<char>) -> Seq<u32> {
    s.map_values(|c: char| c as u32)
}

/// The numbers of a sequence of code points.
pub open spec fn code_point_values(cps: Seq<CodePoint>) -> Seq<u32> {
    cps.map_values(|c: CodePoint| c@)
}

impl Default for EsString {
    /// The empty string.
    fn default() -> (r: EsString)
        ensures
            r@ == Seq::<u16>::empty(),
    {
        EsString(Vec::new())
    }
}

impl EsString {
    /// The empty string.
    pub fn new() -> (r: EsString)
        ensures
            r@ == Seq::<u16>::empty(),
    {
        EsString(Vec::new())
    }

    /// The string of code units `vec`.
    pub fn from_utf16(vec: Vec<u16>) -> (r: EsString)
        ensures
            r@ == vec@,
    {
        EsString(vec)
    }

    /// The UTF-16 encoding of `code_points`, one after the other.
    pub fn from_code_points(code_points: Vec<CodePoint>) -> (r: EsString)
        ensures
            r@ == encode_all(code_point_values(code_points@)),
    {
        let mut s = EsString::new();
        let mut i: usize = 0;
        while i < code_points.len()
            invariant
                i <= code_points@.len(),
                s@ == encode_all(code_point_values(code_points@.subrange(0, i as int))),
            decreases code_points@.len() - i,
        {
            let cp = code_points[i];
            s.push_code_point(cp);
            proof {
                let pre = code_point_values(code_points@.subrange(0, i as int));
                let next = code_point_values(code_points@.subrange(0, i + 1));
                assert(next.drop_last() =~= pre);
                assert(next.last() == cp@);
            }
            i = i + 1;
        }
        proof {
            assert(code_points@.subrange(0, i as int) =~= code_points@);
        }
        s
    }

    /// The UTF-16 encoding of the chars of `value`.
    pub fn from(value: &str) -> (r: EsString)
        ensures
            r@ == encode_all(chars_as_code_points(value@)),
    {
        let mut s = EsString::new();
        let n = value.unicode_len();
        let mut i: usize = 0;
        while i < n
            invariant
                n == value@.len(),
                i <= n,
                s@ == encode_all(chars_as_code_points(value@.subrange(0, i as int))),
            decreases n - i,
        {
            let c = value.get_char(i);
            s.push_code_point(CodePoint::from_char(c));
            proof {
                let pre = chars_as_code_points(value@.subrange(0, i as int));
                let next = chars_as_code_points(value@.subrange(0, i + 1));
                assert(next.drop_last() =~= pre);
                assert(next.last() == c as u32);
            }
            i = i + 1;
        }
        proof {
            assert(value@.subrange(0, i as int) =~= value@);
        }
        s
    }

    /// A borrowed view of the string.
    pub fn as_es_str(&self) -> (r: EsStr<'_>)
        ensures
            r@ == self@,
    {
        EsStr::from_utf16(self.0.as_slice())
    }

    /// Makes room for `additional` more code units; the string is unchanged. The
    /// room it makes is the vector's capacity, which only the allocator knows, so
    /// no clause speaks of it. The string with `additional` more code units must
    /// fit in `isize::MAX` bytes, as `Vec::reserve` panics otherwise.
    pub fn reserve(&mut self, additional: usize)
        requires
            old(self)@.len() + additional <= isize::MAX / 2,
        ensures
            final(self)@ == old(self)@,
    {
        self.0.reserve(additional);
    }

    /// Appends one code unit.
    pub fn push_char_code(&mut self, ch: u16)
        ensures
            final(self)@ == old(self)@.push(ch),
    {
        self.0.push(ch);
    }

    /// Appends the UTF-16 encoding of a code point.
    pub fn push_code_point(&mut self, cp: CodePoint)
        ensures
            final(self)@ == old(self)@ + encode(cp@),
    {
        let units = cp.encode_utf16();
        let slice = array_vec_as_slice(&units);
        let ghost before = self.0@;
        self.0.extend_from_slice(slice);
        proof {
            assert(self.0@ =~= before + encode(cp@));
        }
    }

    /// Whether the string has no code units.
    pub fn is_empty(&self) -> (r: bool)
        ensures
            r == (self@.len() == 0),
    {
        self.0.is_empty()
    }

    /// The text of the string: its code points, each unpaired surrogate replaced by
    /// U+FFFD.
    pub fn to_string(&self) -> (r: String)
        ensures
            r@ == display_text(self@),
    {
        display_units(self.0.as_slice())
    }
}

/// A Rust string read as an ECMAScript string shows the same text again: its
/// chars are encoded as UTF-16 and decoded back, with nothing to replace.
pub proof fn lemma_text_roundtrip(s: Seq<char>)
    ensures
        display_text(encode_all(chars_as_code_points(s))) == s,
{
    broadcast use vstd::utf8::char_is_scalar, vstd::utf8::char_u32_cast;

    let cps = chars_as_code_points(s);
    assert forall|i: int| 0 <= i < cps.len() implies #[trigger] cps[i] <= max_code_point()
        && !(0xD800 <= cps[i] <= 0xDFFF) by {
        assert(cps[i] == s[i] as u32);
        vstd::utf8::char_is_scalar(s[i]);
    }
    assert(all_valid(cps));
    assert(no_split_pairs(cps));
    lemma_decode_encode(cps);
    assert(decode(encode_all(cps)) == cps);
    assert forall|i: int| 0 <= i < s.len() implies #[trigger] display_char(cps[i]) == s[i] by {
        assert(cps[i] == s[i] as u32);
        vstd::utf8::char_is_scalar(s[i]);
        vstd::utf8::char_u32_cast(s[i], cps[i]);
    }
    assert(display_text(encode_all(cps)) =~= s);
}

} // verus!
