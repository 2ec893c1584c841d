//! Unicode code points, UTF-16 decoding and encoding.
use arrayvec::ArrayVec;
use vstd::prelude::*;

use crate::unicode::{
    code_point_at, code_point_len_at, code_unit_count, decode, display_char, encode,
    is_surrogate_value, lemma_decode_first, lemma_encode_len, lemma_surrogate_pair_value,
    max_code_point, pair_starts_at,
};

verus! {

// ---------------------------------------------------------------------------
// The outside collection that an encoded code point comes in.
#[verifier::external_type_specification]
#[verifier::external_body]
#[verifier::reject_recursive_types(T)]
pub struct ExArrayVec<T, const CAP: usize>(ArrayVec<T, CAP>);

/// The code units that an `ArrayVec<u16, 2>` holds, in order.
pub uninterp spec fn code_units_of(v: ArrayVec<u16, 2>) -> Seq<u16>;

/// Calls `ArrayVec::from_iter` on one code unit; arrayvec's `from_iter` pushes
/// the items in order, so the vector holds exactly that unit.
#[verifier::external_body]
fn array_vec_of_one(unit: u16) -> (r: ArrayVec<u16, 2>)
    ensures
        code_units_of(r) == seq![unit],
{
    ArrayVec::from_iter(std::iter::once(unit))
}

/// Calls `ArrayVec::from` on an array of two code units; the vector holds both,
/// in order.
#[verifier::external_body]
fn array_vec_of_two(lead: u16, trail: u16) -> (r: ArrayVec<u16, 2>)
    ensures
        code_units_of(r) == seq![lead, trail],
{
    ArrayVec::from([lead, trail])
}

/// Calls `ArrayVec::as_slice`: the slice holds the vector's items in order.
#[verifier::external_body]
pub(crate) fn array_vec_as_slice(v: &ArrayVec<u16, 2>) -> (r: &[u16])
    ensures
        r@ == code_units_of(*v),
{
    v.as_slice()
}

/// Calls `char::from_u32`, which gives the char of a Unicode scalar value (a
/// code point outside the surrogate range) and `None` for any other number.
#[verifier::external_body]
pub(crate) fn char_from_u32(v: u32) -> (r: Option<char>)
    ensures
        r == (if v <= max_code_point() && !is_surrogate_value(v) {
            Some(v as char)
        } else {
            None
        }),
{
    char::from_u32(v)
}

// ---------------------------------------------------------------------------
/// How many UTF-16 code units a code point takes.
#[derive(Debug, Clone, Copy, PartialEq, Eq, PartialOrd, Ord)]
pub enum CodeUnitCount {
    ONE,
    TWO,
}

impl CodeUnitCount {
    /// The count as a number.
    pub open spec fn spec_count(self) -> int {
        match self {
            CodeUnitCount::ONE => 1,
            CodeUnitCount::TWO => 2,
        }
    }

    /// The count as a number: 1 or 2.
    pub fn as_usize(self) -> (r: usize)
        ensures
            r == self.spec_count(),
    {
        match self {
            CodeUnitCount::ONE => 1,
            CodeUnitCount::TWO => 2,
        }
    }
}

/// A Unicode code point: a number from 0 to 0x10FFFF. Surrogates are allowed, so
/// that any sequence of UTF-16 code units can be read as code points.
#[derive(Clone, Copy, PartialEq, Eq, Structural, PartialOrd, Ord, Debug)]
pub struct CodePoint {
    value: u32,
}

impl View for CodePoint {
    type V = u32;

    closed spec fn view(&self) -> u32 {
        self.value
    }
}

impl CodePoint {
    /// Every code point is at most 0x10FFFF.
    #[verifier::type_invariant]
    pub open spec fn inv(self) -> bool {
        self@ <= max_code_point()
    }

    /// The code point of number `v`; there is exactly one for each valid number.
    pub closed spec fn spec_new(v: u32) -> CodePoint {
        CodePoint { value: v }
    }

    /// `spec_new` gives the code point of a number, and a code point is determined
    /// by its number.
    pub broadcast proof fn lemma_view(v: u32, c: CodePoint)
        ensures
            #[trigger] CodePoint::spec_new(v)@ == v,
            (#[trigger] c@ == v) ==> c == CodePoint::spec_new(v),
    {
    }

    /// Two code points are equal exactly when their numbers are.
    pub broadcast proof fn lemma_eq(a: CodePoint, b: CodePoint)
        ensures
            #![trigger a@, b@]
            a@ == b@ <==> a == b,
    {
    }

    /// The code point of number `value`, or `None` if `value` is above 0x10FFFF.
    pub fn from_u32(value: u32) -> (r: Option<Self>)
        ensures
            r matches Some(c) ==> c@ == value,
            r is Some <==> value <= max_code_point(),
    {
        if value <= 0x10FFFF {
            Some(CodePoint { value })
        } else {
            None
        }
    }

    /// The code point of a code unit, surrogates included.
    pub fn from_u16(value: u16) -> (r: Self)
        ensures
            r@ == value as u32,
    {
        CodePoint { value: value as u32 }
    }

    /// The code point of a char.
    pub fn from_char(value: char) -> (r: Self)
        ensures
            r@ == value as u32,
    {
        CodePoint { value: value as u32 }
    }

    /// The number of the code point, at most 0x10FFFF.
    pub fn as_u32(self) -> (r: u32)
        ensures
            r == self@,
            r <= max_code_point(),
    {
        proof {
            use_type_invariant(&self);
        }
        self.value
    }

    /// Whether the code point lies in the surrogate range, 0xD800 to 0xDFFF.
    pub fn is_unpaired_surrogate(&self) -> (r: bool)
        ensures
            r == is_surrogate_value(self@),
    {
        self.value >= 0xD800 && self.value <= 0xDFFF
    }

    /// The char of the code point, or `None` for a surrogate.
    pub fn as_char(&self) -> (r: Option<char>)
        ensures
            r == (if is_surrogate_value(self@) {
                None
            } else {
                Some(self@ as char)
            }),
    {
        proof {
            use_type_invariant(self);
        }
        char_from_u32(self.as_u32())
    }

    /// How many UTF-16 code units the code point takes: one below 0x10000, two from
    /// there on.
    pub fn code_unit_count(&self) -> (r: CodeUnitCount)
        ensures
            r.spec_count() == code_unit_count(self@),
    {
        if self.value <= 0xFFFF {
            CodeUnitCount::ONE
        } else {
            CodeUnitCount::TWO
        }
    }

    /// A decoder that reads the code points of `iter`, a sequence of UTF-16 code
    /// units; an unpaired surrogate is read as a code point of its own.
    pub fn decode_utf16(iter: Vec<u16>) -> (r: DecodeUtf16)
        ensures
            r@ == decode(iter@),
    {
        proof {
            assert(iter@.skip(0) == iter@);
        }
        DecodeUtf16 { units: iter, index: 0 }
    }

    /// The UTF-16 encoding of the code point: one code unit below 0x10000, else a
    /// surrogate pair.
    pub fn encode_utf16(self) -> (r: ArrayVec<u16, 2>)
        ensures
            code_units_of(r) == encode(self@),
    {
        proof {
            use_type_invariant(&self);
        }
        let value = self.value;
        match self.code_unit_count() {
            CodeUnitCount::ONE => array_vec_of_one(value as u16),
            CodeUnitCount::TWO => array_vec_of_two(
                ((value - 0x10000) / 0x400 + 0xD800) as u16,
                ((value - 0x10000) % 0x400 + 0xDC00) as u16,
            ),
        }
    }

    /// The text of the code point: its char, or U+FFFD for a surrogate.
    pub fn to_string(&self) -> (r: String)
        ensures
            r@ == seq![display_char(self@)],
    {
        let mut s = String::new();
        crate::string::es_str::string_push(&mut s, self.to_char_lossy());
        s
    }

    /// The char that shows the code point: itself, or U+FFFD for a surrogate.
    pub fn to_char_lossy(&self) -> (r: char)
        ensures
            r == display_char(self@),
    {
        proof {
            use_type_invariant(self);
        }
        match self.as_char() {
            Some(c) => c,
            None => '\u{FFFD}',
        }
    }
}

impl From<u16> for CodePoint {
    /// The code point of a code unit, surrogates included.
    fn from(cp: u16) -> (r: CodePoint) {
        CodePoint::from_u16(cp)
    }
}

impl vstd::std_specs::convert::FromSpecImpl<u16> for CodePoint {
    open spec fn obeys_from_spec() -> bool {
        true
    }

    open spec fn from_spec(v: u16) -> CodePoint {
        CodePoint::spec_new(v as u32)
    }
}

impl From<char> for CodePoint {
    /// The code point of a char.
    fn from(cp: char) -> (r: CodePoint) {
        CodePoint::from_char(cp)
    }
}

impl vstd::std_specs::convert::FromSpecImpl<char> for CodePoint {
    open spec fn obeys_from_spec() -> bool {
        true
    }

    open spec fn from_spec(v: char) -> CodePoint {
        CodePoint::spec_new(v as u32)
    }
}

/// The code point that starts at index `i` of `units`, and how many code units
/// it takes: a leading surrogate followed by a trailing one make one code point,
/// any other code unit is a code point of its own.
pub fn decode_at(units: &[u16], i: usize) -> (r: (CodePoint, usize))
    requires
        i < units@.len(),
    ensures
        r.0@ == code_point_at(units@, i as int),
        r.1 == code_point_len_at(units@, i as int),
{
    let lead = units[i];
    if lead >= 0xD800 && lead <= 0xDBFF && i + 1 < units.len() {
        let trail = units[i + 1];
        if trail >= 0xDC00 && trail <= 0xDFFF {
            proof {
                assert(pair_starts_at(units@, i as int));
                lemma_surrogate_pair_value(lead, trail);
            }
            let value = ((lead as u32) - 0xD800) * 0x400 + ((trail as u32) - 0xDC00) + 0x10000;
            return (CodePoint { value }, 2);
        }
    }
    (CodePoint { value: lead as u32 }, 1)
}

// ---------------------------------------------------------------------------
/// Reads the code points of a sequence of UTF-16 code units, one at a time.
pub struct DecodeUtf16 {
    units: Vec<u16>,
    index: usize,
}

impl View for DecodeUtf16 {
    type V = Seq<u32>;

    /// The code points that are still to be read.
    closed spec fn view(&self) -> Seq<u32> {
        decode(self.units@.skip(self.index as int))
    }
}

impl DecodeUtf16 {
    closed spec fn wf(&self) -> bool {
        self.index <= self.units@.len()
    }

    #[verifier::type_invariant]
    closed spec fn inv(&self) -> bool {
        self.wf()
    }

    /// The next code point, or `None` when all have been read.
    pub fn next(&mut self) -> (r: Option<CodePoint>)
        ensures
            old(self)@.len() == 0 ==> r is None && final(self)@ == old(self)@,
            old(self)@.len() > 0 ==> (r matches Some(c) && c@ == old(self)@[0] && final(self)@
                == old(self)@.skip(1)),
    {
        proof {
            use_type_invariant(&*self);
        }
        let i = self.index;
        if i >= self.units.len() {
            proof {
                assert(self.units@.skip(i as int).len() == 0);
            }
            return None;
        }
        let ghost units = self.units@;
        let (c, n) = decode_at(self.units.as_slice(), i);
        proof {
            lemma_decode_first(units, i as int);
            assert(decode(units.skip(i as int)).skip(1) =~= decode(units.skip(i + n)));
        }
        self.index = i + n;
        Some(c)
    }

    /// All the code points that are still to be read, in order.
    pub fn collect_vec(self) -> (r: Vec<CodePoint>)
        ensures
            r@.map_values(|c: CodePoint| c@) == self@,
    {
        let mut this = self;
        let ghost all = this@;
        let mut out: Vec<CodePoint> = Vec::new();
        loop
            invariant
                all == self@,
                all == out@.map_values(|c: CodePoint| c@) + this@,
            decreases this@.len(),
        {
            match this.next() {
                Some(c) => {
                    let ghost before = out@.map_values(|c: CodePoint| c@);
                    out.push(c);
                    proof {
                        assert(out@.map_values(|c: CodePoint| c@) =~= before.push(c@));
                    }
                },
                None => {
                    proof {
                        assert(out@.map_values(|c: CodePoint| c@) + this@ =~= out@.map_values(
                            |c: CodePoint| c@,
                        ));
                    }
                    return out;
                },
            }
        }
    }
}

/// Decoding yields at most as many code points as there are code units.
pub proof fn lemma_decode_len(units: Seq<u16>)
    ensures
        decode(units).len() <= units.len(),
    decreases units.len(),
{
    if units.len() > 0 {
        lemma_decode_len(units.skip(code_point_len_at(units, 0)));
    }
}

} // verus!
