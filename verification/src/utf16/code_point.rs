//! Code points, built from code units of known kinds, and UTF-16 decoding.
use vstd::prelude::*;
use vstd::string::StringExecFns;

use crate::string::code_point::char_from_u32;
use crate::string::es_str::string_push;
use crate::text::{decimal, decimal_string};
use crate::unicode::{
    code_point_at, code_point_len_at, code_unit_count, decode, is_leading_surrogate,
    is_surrogate_value, is_trailing_surrogate, lemma_decode_first, lemma_surrogate_pair_value,
    max_code_point, pair_starts_at, surrogate_pair_value,
};
use crate::utf16::code_unit::{
    CodeUnit, DecodedCodeUnit, LeadingSurrogateChar, TrailingSurrogateChar,
};

verus! {

/// A Unicode code point: a number from 0 to 0x10FFFF, surrogates included.
#[derive(Debug, Clone, Copy, PartialEq, Eq, Structural, PartialOrd, Ord)]
pub struct CodePoint {
    cp: u32,
}

impl View for CodePoint {
    type V = u32;

    closed spec fn view(&self) -> u32 {
        self.cp
    }
}

impl CodePoint {
    /// Every code point is at most 0x10FFFF.
    #[verifier::type_invariant]
    pub open spec fn inv(self) -> bool {
        self@ <= max_code_point()
    }

    /// Two code points are equal exactly when their numbers are.
    pub broadcast proof fn lemma_eq(a: CodePoint, b: CodePoint)
        ensures
            #![trigger a@, b@]
            a@ == b@ <==> a == b,
    {
    }

    /// The code point of number `cp`, or `None` if `cp` is above 0x10FFFF.
    pub fn from_u32(cp: u32) -> (r: Option<CodePoint>)
        ensures
            r is Some <==> cp <= max_code_point(),
            r matches Some(c) ==> c@ == cp,
    {
        if cp <= 0x10FFFF {
            Some(CodePoint { cp })
        } else {
            None
        }
    }

    /// The code point of number `cp`, which must be at most 0x10FFFF.
    pub fn from_u32_unchecked(cp: u32) -> (r: CodePoint)
        requires
            cp <= max_code_point(),
        ensures
            r@ == cp,
    {
        match CodePoint::from_u32(cp) {
            Some(v) => v,
            None => CodePoint { cp },
        }
    }

    /// The code point of a code unit, surrogates included.
    pub fn from_u16(cp: u16) -> (r: CodePoint)
        ensures
            r@ == cp as u32,
    {
        CodePoint { cp: cp as u32 }
    }

    /// The code point of a char.
    pub fn from_char(cp: char) -> (r: CodePoint)
        ensures
            r@ == cp as u32,
    {
        CodePoint { cp: cp as u32 }
    }

    /// The code point of a code unit of any kind.
    pub fn from_code_unit<T: CodeUnit>(value: T) -> (r: CodePoint)
        ensures
            r@ == value.spec_code() as u32,
    {
        CodePoint { cp: value.code() as u32 }
    }

    /// The supplementary code point that a surrogate pair encodes.
    pub fn from_surrogate_pair(lead: LeadingSurrogateChar, trail: TrailingSurrogateChar) -> (r:
        CodePoint)
        ensures
            r@ == surrogate_pair_value(lead@, trail@),
            0x10000 <= r@ <= max_code_point(),
    {
        proof {
            use_type_invariant(&lead);
            use_type_invariant(&trail);
            lemma_surrogate_pair_value(lead@, trail@);
        }
        let lead = lead.code() as u32;
        let trail = trail.code() as u32;
        let cp = (lead - 0xD800) * 0x400 + (trail - 0xDC00) + 0x10000;
        CodePoint { cp }
    }

    /// The number of the code point, at most 0x10FFFF.
    pub fn code_point(&self) -> (r: u32)
        ensures
            r == self@,
            r <= max_code_point(),
    {
        proof {
            use_type_invariant(self);
        }
        self.cp
    }

    /// How many UTF-16 code units the code point takes: one below 0x10000, two from
    /// there on.
    pub fn code_unit_count(&self) -> (r: usize)
        ensures
            r == code_unit_count(self@),
    {
        if self.cp < 0x10000 {
            1
        } else {
            2
        }
    }

    /// Whether the code point lies in the surrogate range, 0xD800 to 0xDFFF.
    pub fn is_unpaired_surrogate(&self) -> (r: bool)
        ensures
            r == is_surrogate_value(self@),
    {
        self.cp >= 0xD800 && self.cp <= 0xDFFF
    }

    /// The char of the code point, or `None` for a surrogate.
    pub fn as_char(&self) -> (r: Option<char>)
        ensures
            r == (if is_surrogate_value(self@) {
                None
            } else {
                Some(self@ as char)
            }),
    {
        char_from_u32(self.code_point())
    }

    /// The text of the code point: its char, or for a surrogate `\\u` and its
    /// number in decimal digits.
    pub open spec fn spec_text(self) -> Seq<char> {
        if is_surrogate_value(self@) {
            "\\u"@ + decimal(self@ as nat)
        } else {
            seq![self@ as char]
        }
    }

    /// The text of the code point: its char, or for a surrogate `\\u` and its
    /// number in decimal digits.
    pub fn to_string(&self) -> (r: String)
        ensures
            r@ == self.spec_text(),
    {
        let mut s = String::new();
        match self.as_char() {
            Some(c) => string_push(&mut s, c),
            None => {
                s.append("\\u");
                s.append(decimal_string(self.code_point() as usize).as_str());
            },
        }
        s
    }
}

impl CodePoint {
    /// The code point of number `v`.
    pub closed spec fn spec_new(v: u32) -> CodePoint {
        CodePoint { cp: v }
    }

    /// `spec_new` gives the code point of a number, and a code point is determined
    /// by its number.
    pub broadcast proof fn lemma_view(v: u32, c: CodePoint)
        ensures
            #[trigger] CodePoint::spec_new(v)@ == v,
            (#[trigger] c@ == v) ==> c == CodePoint::spec_new(v),
    {
    }
}

impl From<u16> for CodePoint {
    /// The code point of a code unit, surrogates included.
    fn from(cp: u16) -> (r: CodePoint) {
        CodePoint::from_u16(cp)
    }
}

impl vstd::std_specs::convert::FromSpecImpl<u16> for CodePoint {
    open spec fn obeys_from_spec() -> bool {
        true
    }

    open spec fn from_spec(v: u16) -> CodePoint {
        CodePoint::spec_new(v as u32)
    }
}

impl From<char> for CodePoint {
    /// The code point of a char.
    fn from(cp: char) -> (r: CodePoint) {
        CodePoint::from_char(cp)
    }
}

impl vstd::std_specs::convert::FromSpecImpl<char> for CodePoint {
    open spec fn obeys_from_spec() -> bool {
        true
    }

    open spec fn from_spec(v: char) -> CodePoint {
        CodePoint::spec_new(v as u32)
    }
}

impl<T: CodeUnit> From<T> for CodePoint {
    /// The code point of a code unit of any kind.
    fn from(value: T) -> (r: CodePoint) {
        CodePoint::from_code_unit(value)
    }
}

impl<T: CodeUnit> vstd::std_specs::convert::FromSpecImpl<T> for CodePoint {
    open spec fn obeys_from_spec() -> bool {
        true
    }

    open spec fn from_spec(v: T) -> CodePoint {
        CodePoint::spec_new(v.spec_code() as u32)
    }
}

/// Reads the code points of a sequence of UTF-16 code units, one at a time; an
/// unpaired surrogate is read as a code point of its own.
pub struct DecodeUtf16 {
    units: Vec<u16>,
    index: usize,
}

impl View for DecodeUtf16 {
    type V = Seq<u32>;

    /// The code points that are still to be read.
    closed spec fn view(&self) -> Seq<u32> {
        decode(self.units@.skip(self.index as int))
    }
}

impl DecodeUtf16 {
    #[verifier::type_invariant]
    closed spec fn inv(&self) -> bool {
        self.index <= self.units@.len()
    }

    /// The next code point, or `None` when all have been read.
    pub fn next(&mut self) -> (r: Option<CodePoint>)
        ensures
            old(self)@.len() == 0 ==> r is None && final(self)@ == old(self)@,
            old(self)@.len() > 0 ==> (r matches Some(c) && c@ == old(self)@[0] && final(self)@
                == old(self)@.skip(1)),
    {
        proof {
            use_type_invariant(&*self);
        }
        let i = self.index;
        let len = self.units.len();
        if i >= len {
            proof {
                assert(self.units@.skip(i as int).len() == 0);
            }
            return None;
        }
        let ghost units = self.units@;
        proof {
            lemma_decode_first(units, i as int);
        }
        let first = self.units[i];
        match DecodedCodeUnit::from_char_code(first) {
            DecodedCodeUnit::Bmp(c) => {
                self.index = i + 1;
                proof {
                    assert(decode(units.skip(i as int)).skip(1) =~= decode(units.skip(i + 1)));
                }
                Some(CodePoint::from_code_unit(c))
            },
            DecodedCodeUnit::LeadingSurrogate(lead) => {
                if i + 1 < len {
                    match DecodedCodeUnit::from_char_code(self.units[i + 1]) {
                        DecodedCodeUnit::TrailingSurrogate(trail) => {
                            self.index = i + 2;
                            proof {
                                assert(pair_starts_at(units, i as int));
                                assert(decode(units.skip(i as int)).skip(1) =~= decode(
                                    units.skip(i + 2),
                                ));
                            }
                            return Some(CodePoint::from_surrogate_pair(lead, trail));
                        },
                        _ => {},
                    }
                }
                self.index = i + 1;
                proof {
                    assert(decode(units.skip(i as int)).skip(1) =~= decode(units.skip(i + 1)));
                }
                Some(CodePoint::from_code_unit(lead))
            },
            DecodedCodeUnit::TrailingSurrogate(c) => {
                self.index = i + 1;
                proof {
                    assert(decode(units.skip(i as int)).skip(1) =~= decode(units.skip(i + 1)));
                }
                Some(CodePoint::from_code_unit(c))
            },
        }
    }

    /// All the code points that are still to be read, in order.
    pub fn collect_vec(self) -> (r: Vec<CodePoint>)
        ensures
            r@.map_values(|c: CodePoint| c@) == self@,
    {
        let mut this = self;
        let ghost all = this@;
        let mut out: Vec<CodePoint> = Vec::new();
        loop
            invariant
                all == self@,
                all == out@.map_values(|c: CodePoint| c@) + this@,
            decreases this@.len(),
        {
            match this.next() {
                Some(c) => {
                    let ghost before = out@.map_values(|c: CodePoint| c@);
                    out.push(c);
                    proof {
                        assert(out@.map_values(|c: CodePoint| c@) =~= before.push(c@));
                    }
                },
                None => {
                    proof {
                        assert(out@.map_values(|c: CodePoint| c@) + this@ =~= out@.map_values(
                            |c: CodePoint| c@,
                        ));
                    }
                    return out;
                },
            }
        }
    }
}

/// A decoder that reads the code points of `iter`, a sequence of UTF-16 code
/// units; an unpaired surrogate is read as a code point of its own.
pub fn decode_utf16(iter: Vec<u16>) -> (r: DecodeUtf16)
    ensures
        r@ == decode(iter@),
{
    proof {
        assert(iter@.skip(0) == iter@);
    }
    DecodeUtf16 { units: iter, index: 0 }
}

} // verus!
