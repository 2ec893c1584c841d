//! Borrowed ECMAScript strings.
use vstd::prelude::*;

use crate::string::code_point::{decode_at, CodePoint};
use crate::string::es_string::EsString;
use crate::unicode::{
    code_point_at, code_point_len_at, decode, display_char, display_text, lemma_decode_first,
};

verus! {

/// Calls `String::push`, which appends one char to the string.
#[verifier::external_body]
pub(crate) fn string_push(s: &mut String, c: char)
    ensures
        final(s)@ == old(s)@.push(c),
{
    s.push(c)
}

/// A borrowed ECMAScript string: a slice of UTF-16 code units, which need not be
/// well-formed UTF-16.
#[derive(Clone, Copy, Debug, PartialEq, Eq, PartialOrd, Ord)]
pub struct EsStr<'a>(&'a [u16]);

impl<'a> View for EsStr<'a> {
    type V = Seq<u16>;

    /// The code units of the string.
    closed spec fn view(&self) -> Seq<u16> {
        self.0@
    }
}

/// An index into an [`EsStr`]: a position selects one code unit, a range selects
/// a substring.
pub trait EsStrIndex<'a>: Sized {
    type Output;

    /// The index lies within a string of code units `units`.
    spec fn in_bounds(&self, units: Seq<u16>) -> bool;

    /// `out` is what the index selects from a string of code units `units`.
    spec fn selects(&self, units: Seq<u16>, out: Self::Output) -> bool;

    /// What the index selects from `slice`, or `None` if it lies outside it.
    fn get(self, slice: EsStr<'a>) -> (r: Option<Self::Output>)
        ensures
            r is Some <==> self.in_bounds(slice@),
            r matches Some(out) ==> self.selects(slice@, out),
    ;

    /// What the index selects from `slice`, which it must lie within.
    fn index(self, slice: EsStr<'a>) -> (r: Self::Output)
        requires
            self.in_bounds(slice@),
        ensures
            self.selects(slice@, r),
    ;
}

impl<'a> EsStrIndex<'a> for usize {
    type Output = &'a u16;

    open spec fn in_bounds(&self, units: Seq<u16>) -> bool {
        *self < units.len()
    }

    open spec fn selects(&self, units: Seq<u16>, out: &'a u16) -> bool {
        *out == units[*self as int]
    }

    fn get(self, slice: EsStr<'a>) -> (r: Option<&'a u16>) {
        let units = slice.as_u16s();
        if self < units.len() {
            Some(&units[self])
        } else {
            None
        }
    }

    fn index(self, slice: EsStr<'a>) -> (r: &'a u16) {
        &slice.as_u16s()[self]
    }
}

impl<'a> EsStrIndex<'a> for core::ops::Range<usize> {
    type Output = EsStr<'a>;

    open spec fn in_bounds(&self, units: Seq<u16>) -> bool {
        self.start <= self.end <= units.len()
    }

    open spec fn selects(&self, units: Seq<u16>, out: EsStr<'a>) -> bool {
        out@ == units.subrange(self.start as int, self.end as int)
    }

    fn get(self, slice: EsStr<'a>) -> (r: Option<EsStr<'a>>) {
        let units = slice.as_u16s();
        if self.start <= self.end && self.end <= units.len() {
            Some(EsStr::from_utf16(vstd::slice::slice_subrange(units, self.start, self.end)))
        } else {
            None
        }
    }

    fn index(self, slice: EsStr<'a>) -> (r: EsStr<'a>) {
        EsStr::from_utf16(vstd::slice::slice_subrange(slice.as_u16s(), self.start, self.end))
    }
}

impl<'a> EsStr<'a> {
    /// The length of a string fits in a `usize`.
    pub proof fn lemma_len_fits(self)
        ensures
            self@.len() <= usize::MAX,
    {
        assert(self.0.len() == self.0@.len());
    }

    /// The string of code units `from`.
    pub fn from_utf16(from: &'a [u16]) -> (r: EsStr<'a>)
        ensures
            r@ == from@,
    {
        EsStr(from)
    }

    /// The code units of the string.
    pub fn as_u16s(&self) -> (r: &'a [u16])
        ensures
            r@ == self@,
    {
        self.0
    }

    /// The number of code units.
    pub fn len(&self) -> (r: usize)
        ensures
            r == self@.len(),
    {
        self.0.len()
    }

    /// The code unit at a position, or the substring of a range; `None` when the
    /// index lies outside the string.
    pub fn get<I: EsStrIndex<'a>>(&self, i: I) -> (r: Option<I::Output>)
        ensures
            r is Some <==> i.in_bounds(self@),
            r matches Some(out) ==> i.selects(self@, out),
    {
        i.get(*self)
    }

    /// The code unit at a position, or the substring of a range; the index must lie
    /// within the string.
    pub fn index<I: EsStrIndex<'a>>(&self, index: I) -> (r: I::Output)
        requires
            index.in_bounds(self@),
        ensures
            index.selects(self@, r),
    {
        index.index(*self)
    }

    /// The code point that starts at code unit `i`, or `None` when `i` is not below
    /// the length. A surrogate pair gives the code point it encodes; a trailing
    /// surrogate, or a leading one without a trailing one after it, is a code
    /// point of its own.
    pub fn code_point_at(&self, i: usize) -> (r: Option<CodePoint>)
        ensures
            r is Some <==> i < self@.len(),
            r matches Some(c) ==> c@ == code_point_at(self@, i as int),
    {
        if i >= self.0.len() {
            return None;
        }
        let (c, _) = decode_at(self.0, i);
        Some(c)
    }

    /// Whether the string begins with the code units of `pat`.
    pub fn starts_with(&self, pat: &EsStr) -> (r: bool)
        ensures
            r == (pat@.len() <= self@.len() && self@.subrange(0, pat@.len() as int) == pat@),
    {
        let n = pat.0.len();
        if n > self.0.len() {
            return false;
        }
        let mut i: usize = 0;
        while i < n
            invariant
                n == pat@.len() <= self@.len(),
                i <= n,
                forall|j: int| 0 <= j < i ==> self@[j] == pat@[j],
            decreases n - i,
        {
            if self.0[i] != pat.0[i] {
                proof {
                    assert(self@.subrange(0, n as int)[i as int] != pat@[i as int]);
                }
                return false;
            }
            i = i + 1;
        }
        proof {
            assert(self@.subrange(0, n as int) =~= pat@);
        }
        true
    }

    /// An owned copy of the string.
    pub fn to_owned(&self) -> (r: EsString)
        ensures
            r@ == self@,
    {
        let mut v: Vec<u16> = Vec::new();
        let mut i: usize = 0;
        while i < self.0.len()
            invariant
                i <= self@.len(),
                v@ == self@.subrange(0, i as int),
            decreases self@.len() - i,
        {
            v.push(self.0[i]);
            i = i + 1;
            proof {
                assert(v@ =~= self@.subrange(0, i as int));
            }
        }
        proof {
            assert(self@.subrange(0, i as int) =~= self@);
        }
        EsString::from_utf16(v)
    }

    /// The text of the string: its code points, each unpaired surrogate replaced by
    /// U+FFFD.
    pub fn to_string(&self) -> (r: String)
        ensures
            r@ == display_text(self@),
    {
        display_units(self.0)
    }
}

/// The text of a sequence of code units: its code points, each unpaired surrogate
/// replaced by U+FFFD.
pub fn display_units(units: &[u16]) -> (r: String)
    ensures
        r@ == display_text(units@),
{
    let mut out = String::new();
    let mut i: usize = 0;
    let ghost all = units@;
    proof {
        assert(all.skip(0) == all);
    }
    while i < units.len()
        invariant
            all == units@,
            i <= all.len(),
            display_text(all) == out@ + display_text(all.skip(i as int)),
        decreases all.len() - i,
    {
        let (c, n) = decode_at(units, i);
        proof {
            lemma_decode_first(all, i as int);
            assert(display_text(all.skip(i as int)) =~= seq![display_char(c@)] + display_text(
                all.skip(i + n),
            ));
        }
        string_push(&mut out, c.to_char_lossy());
        i = i + n;
        proof {
            assert(display_text(all) =~= out@ + display_text(all.skip(i as int)));
        }
    }
    proof {
        assert(display_text(all.skip(i as int)) =~= Seq::<char>::empty());
    }
    out
}

} // verus!
