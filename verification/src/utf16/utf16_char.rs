//! A code point as the UTF-16 code units that encode it.
use vstd::prelude::*;

use crate::unicode::{encode, is_leading_surrogate, is_trailing_surrogate, lemma_encode_len, lemma_surrogate_pair_value, surrogate_pair_value};
use crate::utf16::code_point::CodePoint;
use crate::utf16::code_unit::{
    is_bmp_unit, BmpChar, DecodedCodeUnit, LeadingSurrogateChar, TrailingSurrogateChar,
};

verus! {

/// A code point as UTF-16: one unit of the basic multilingual plane, an unpaired
/// surrogate, or a surrogate pair.
#[derive(Debug, Clone, Copy, PartialEq, Eq)]
pub enum Utf16Char {
    Bmp(BmpChar),
    UnpairedLeadingSurrogate(LeadingSurrogateChar),
    UnpairedTrailingSurrogate(TrailingSurrogateChar),
    SurrogatePair(LeadingSurrogateChar, TrailingSurrogateChar),
}

impl Utf16Char {
    /// The code units, in order.
    pub open spec fn spec_units(self) -> Seq<u16> {
        match self {
            Utf16Char::Bmp(c) => seq![c@],
            Utf16Char::UnpairedLeadingSurrogate(c) => seq![c@],
            Utf16Char::UnpairedTrailingSurrogate(c) => seq![c@],
            Utf16Char::SurrogatePair(l, t) => seq![l@, t@],
        }
    }

    /// The UTF-16 form of the code point of number `v`: the code units of its
    /// encoding, each with its kind.
    pub open spec fn spec_from_code_point(v: u32) -> Utf16Char {
        let e = encode(v);
        if v < 0x10000 {
            match DecodedCodeUnit::spec_from_char_code(e[0]) {
                DecodedCodeUnit::Bmp(c) => Utf16Char::Bmp(c),
                DecodedCodeUnit::LeadingSurrogate(c) => Utf16Char::UnpairedLeadingSurrogate(c),
                DecodedCodeUnit::TrailingSurrogate(c) => Utf16Char::UnpairedTrailingSurrogate(c),
            }
        } else {
            match (
                DecodedCodeUnit::spec_from_char_code(e[0]),
                DecodedCodeUnit::spec_from_char_code(e[1]),
            ) {
                (DecodedCodeUnit::LeadingSurrogate(l), DecodedCodeUnit::TrailingSurrogate(t)) => {
                    Utf16Char::SurrogatePair(l, t)
                },
                (_, _) => Utf16Char::Bmp(arbitrary()),
            }
        }
    }

    /// The UTF-16 form of a code point: its code units are its encoding, and the
    /// variant says their kind.
    pub fn from_code_point(value: CodePoint) -> (r: Utf16Char)
        ensures
            r == Utf16Char::spec_from_code_point(value@),
            r.spec_units() == encode(value@),
            r is Bmp <==> value@ < 0x10000 && is_bmp_unit(value@ as u16),
            r is UnpairedLeadingSurrogate <==> value@ < 0x10000 && is_leading_surrogate(
                value@ as u16,
            ),
            r is UnpairedTrailingSurrogate <==> value@ < 0x10000 && is_trailing_surrogate(
                value@ as u16,
            ),
            r is SurrogatePair <==> value@ >= 0x10000,
    {
        let cp = value.code_point();
        if cp <= 0xFFFF {
            match DecodedCodeUnit::from_char_code(cp as u16) {
                DecodedCodeUnit::Bmp(c) => Utf16Char::Bmp(c),
                DecodedCodeUnit::LeadingSurrogate(c) => Utf16Char::UnpairedLeadingSurrogate(c),
                DecodedCodeUnit::TrailingSurrogate(c) => Utf16Char::UnpairedTrailingSurrogate(c),
            }
        } else {
            proof {
                lemma_encode_len(cp);
            }
            // cu1 is in the range of integers from 0xD800 to 0xDBFF
            let cu1 = ((cp - 0x10000) / 0x400 + 0xD800) as u16;
            // cu2 is in the range of integers from 0xDC00 to 0xDFFF
            let cu2 = ((cp - 0x10000) % 0x400 + 0xDC00) as u16;
            Utf16Char::SurrogatePair(
                LeadingSurrogateChar::new_unchecked(cu1),
                TrailingSurrogateChar::new_unchecked(cu2),
            )
        }
    }
}

impl From<CodePoint> for Utf16Char {
    /// The UTF-16 form of a code point.
    fn from(value: CodePoint) -> (r: Utf16Char) {
        Utf16Char::from_code_point(value)
    }
}

impl vstd::std_specs::convert::FromSpecImpl<CodePoint> for Utf16Char {
    open spec fn obeys_from_spec() -> bool {
        true
    }

    open spec fn from_spec(v: CodePoint) -> Utf16Char {
        Utf16Char::spec_from_code_point(v@)
    }
}

/// A surrogate pair read as a code point gives back the same pair.
pub proof fn lemma_surrogate_pair_roundtrip(lead: LeadingSurrogateChar, trail: TrailingSurrogateChar)
    requires
        is_leading_surrogate(lead@),
        is_trailing_surrogate(trail@),
    ensures
        encode(surrogate_pair_value(lead@, trail@)) == seq![lead@, trail@],
        surrogate_pair_value(lead@, trail@) >= 0x10000,
{
    lemma_surrogate_pair_value(lead@, trail@);
}

} // verus!
