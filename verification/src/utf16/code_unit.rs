//! UTF-16 code units, by kind: a unit of the basic multilingual plane, or a
//! leading or trailing surrogate.
use vstd::prelude::*;

use crate::unicode::{is_leading_surrogate, is_trailing_surrogate};

verus! {

/// A UTF-16 code unit of a known kind.
pub trait CodeUnit: Copy {
    /// The number of the code unit.
    spec fn spec_code(&self) -> u16;

    /// The number of the code unit.
    fn code(self) -> (r: u16)
        ensures
            r == self.spec_code(),
    ;
}

/// A code unit is of the basic multilingual plane when it is no surrogate:
/// 0 to 0xD7FF or 0xE000 to 0xFFFF.
pub open spec fn is_bmp_unit(code: u16) -> bool {
    !is_leading_surrogate(code) && !is_trailing_surrogate(code)
}

/// A code unit that is no surrogate: 0 to 0xD7FF or 0xE000 to 0xFFFF.
#[derive(Debug, Clone, Copy, PartialEq, Eq, PartialOrd, Ord)]
pub struct BmpChar {
    code: u16,
}

impl View for BmpChar {
    type V = u16;

    closed spec fn view(&self) -> u16 {
        self.code
    }
}

impl BmpChar {
    /// A `BmpChar` is no surrogate.
    #[verifier::type_invariant]
    pub open spec fn inv(self) -> bool {
        is_bmp_unit(self@)
    }

    /// The unit `code`, or `None` if it is a surrogate.
    pub fn new(code: u16) -> (r: Option<BmpChar>)
        ensures
            r is Some <==> is_bmp_unit(code),
            r matches Some(c) ==> c@ == code && DecodedCodeUnit::spec_from_char_code(code)
                == DecodedCodeUnit::Bmp(c),
    {
        match DecodedCodeUnit::from_char_code(code) {
            DecodedCodeUnit::Bmp(v) => Some(v),
            _ => None,
        }
    }

    /// The unit `code`, which must not be a surrogate.
    pub fn new_unchecked(code: u16) -> (r: BmpChar)
        requires
            is_bmp_unit(code),
        ensures
            r@ == code,
            DecodedCodeUnit::spec_from_char_code(code) == DecodedCodeUnit::Bmp(r),
    {
        match BmpChar::new(code) {
            Some(v) => v,
            None => BmpChar { code },
        }
    }
}

impl From<BmpChar> for u16 {
    /// The number of the code unit.
    fn from(value: BmpChar) -> (r: u16) {
        value.code
    }
}

impl vstd::std_specs::convert::FromSpecImpl<BmpChar> for u16 {
    open spec fn obeys_from_spec() -> bool {
        true
    }

    open spec fn from_spec(v: BmpChar) -> u16 {
        v@
    }
}

impl CodeUnit for BmpChar {
    open spec fn spec_code(&self) -> u16 {
        self@
    }

    fn code(self) -> (r: u16) {
        self.code
    }
}

/// A leading (high) surrogate: 0xD800 to 0xDBFF.
#[derive(Debug, Clone, Copy, PartialEq, Eq, PartialOrd, Ord)]
pub struct LeadingSurrogateChar {
    code: u16,
}

impl View for LeadingSurrogateChar {
    type V = u16;

    closed spec fn view(&self) -> u16 {
        self.code
    }
}

impl LeadingSurrogateChar {
    /// A `LeadingSurrogateChar` is a leading surrogate.
    #[verifier::type_invariant]
    pub open spec fn inv(self) -> bool {
        is_leading_surrogate(self@)
    }

    /// The unit `code`, or `None` if it is no leading surrogate.
    pub fn new(code: u16) -> (r: Option<LeadingSurrogateChar>)
        ensures
            r is Some <==> is_leading_surrogate(code),
            r matches Some(c) ==> c@ == code && DecodedCodeUnit::spec_from_char_code(code)
                == DecodedCodeUnit::LeadingSurrogate(c),
    {
        match DecodedCodeUnit::from_char_code(code) {
            DecodedCodeUnit::LeadingSurrogate(v) => Some(v),
            _ => None,
        }
    }

    /// The unit `code`, which must be a leading surrogate.
    pub fn new_unchecked(code: u16) -> (r: LeadingSurrogateChar)
        requires
            is_leading_surrogate(code),
        ensures
            r@ == code,
            DecodedCodeUnit::spec_from_char_code(code) == DecodedCodeUnit::LeadingSurrogate(r),
    {
        match LeadingSurrogateChar::new(code) {
            Some(v) => v,
            None => LeadingSurrogateChar { code },
        }
    }
}

impl From<LeadingSurrogateChar> for u16 {
    /// The number of the code unit.
    fn from(value: LeadingSurrogateChar) -> (r: u16) {
        value.code
    }
}

impl vstd::std_specs::convert::FromSpecImpl<LeadingSurrogateChar> for u16 {
    open spec fn obeys_from_spec() -> bool {
        true
    }

    open spec fn from_spec(v: LeadingSurrogateChar) -> u16 {
        v@
    }
}

impl CodeUnit for LeadingSurrogateChar {
    open spec fn spec_code(&self) -> u16 {
        self@
    }

    fn code(self) -> (r: u16) {
        self.code
    }
}

/// A trailing (low) surrogate: 0xDC00 to 0xDFFF.
#[derive(Debug, Clone, Copy, PartialEq, Eq, PartialOrd, Ord)]
pub struct TrailingSurrogateChar {
    code: u16,
}

impl View for TrailingSurrogateChar {
    type V = u16;

    closed spec fn view(&self) -> u16 {
        self.code
    }
}

impl TrailingSurrogateChar {
    /// A `TrailingSurrogateChar` is a trailing surrogate.
    #[verifier::type_invariant]
    pub open spec fn inv(self) -> bool {
        is_trailing_surrogate(self@)
    }

    /// The unit `code`, or `None` if it is no trailing surrogate.
    pub fn new(code: u16) -> (r: Option<TrailingSurrogateChar>)
        ensures
            r is Some <==> is_trailing_surrogate(code),
            r matches Some(c) ==> c@ == code && DecodedCodeUnit::spec_from_char_code(code)
                == DecodedCodeUnit::TrailingSurrogate(c),
    {
        match DecodedCodeUnit::from_char_code(code) {
            DecodedCodeUnit::TrailingSurrogate(v) => Some(v),
            _ => None,
        }
    }

    /// The unit `code`, which must be a trailing surrogate.
    pub fn new_unchecked(code: u16) -> (r: TrailingSurrogateChar)
        requires
            is_trailing_surrogate(code),
        ensures
            r@ == code,
            DecodedCodeUnit::spec_from_char_code(code) == DecodedCodeUnit::TrailingSurrogate(r),
    {
        match TrailingSurrogateChar::new(code) {
            Some(v) => v,
            None => TrailingSurrogateChar { code },
        }
    }
}

impl From<TrailingSurrogateChar> for u16 {
    /// The number of the code unit.
    fn from(value: TrailingSurrogateChar) -> (r: u16) {
        value.code
    }
}

impl vstd::std_specs::convert::FromSpecImpl<TrailingSurrogateChar> for u16 {
    open spec fn obeys_from_spec() -> bool {
        true
    }

    open spec fn from_spec(v: TrailingSurrogateChar) -> u16 {
        v@
    }
}

impl CodeUnit for TrailingSurrogateChar {
    open spec fn spec_code(&self) -> u16 {
        self@
    }

    fn code(self) -> (r: u16) {
        self.code
    }
}

/// A code unit together with its kind.
#[derive(Debug, Clone, Copy, PartialEq, Eq)]
pub enum DecodedCodeUnit {
    Bmp(BmpChar),
    LeadingSurrogate(LeadingSurrogateChar),
    TrailingSurrogate(TrailingSurrogateChar),
}

impl DecodedCodeUnit {
    /// The number of the code unit.
    pub open spec fn spec_code(self) -> u16 {
        match self {
            DecodedCodeUnit::Bmp(c) => c@,
            DecodedCodeUnit::LeadingSurrogate(c) => c@,
            DecodedCodeUnit::TrailingSurrogate(c) => c@,
        }
    }

    /// The code unit `code` with its kind.
    pub closed spec fn spec_from_char_code(code: u16) -> DecodedCodeUnit {
        if is_bmp_unit(code) {
            DecodedCodeUnit::Bmp(BmpChar { code })
        } else if is_leading_surrogate(code) {
            DecodedCodeUnit::LeadingSurrogate(LeadingSurrogateChar { code })
        } else {
            DecodedCodeUnit::TrailingSurrogate(TrailingSurrogateChar { code })
        }
    }

    /// The code unit `code` with its kind; every code unit has exactly one kind.
    pub fn from_char_code(code: u16) -> (r: DecodedCodeUnit)
        ensures
            r == DecodedCodeUnit::spec_from_char_code(code),
            r.spec_code() == code,
            r is Bmp <==> is_bmp_unit(code),
            r is LeadingSurrogate <==> is_leading_surrogate(code),
            r is TrailingSurrogate <==> is_trailing_surrogate(code),
    {
        if code <= 0xD7FF || code >= 0xE000 {
            DecodedCodeUnit::Bmp(BmpChar { code })
        } else if code <= 0xDBFF {
            DecodedCodeUnit::LeadingSurrogate(LeadingSurrogateChar { code })
        } else {
            DecodedCodeUnit::TrailingSurrogate(TrailingSurrogateChar { code })
        }
    }
}

impl From<u16> for DecodedCodeUnit {
    /// The code unit `code` with its kind.
    fn from(code: u16) -> (r: DecodedCodeUnit) {
        DecodedCodeUnit::from_char_code(code)
    }
}

impl vstd::std_specs::convert::FromSpecImpl<u16> for DecodedCodeUnit {
    open spec fn obeys_from_spec() -> bool {
        true
    }

    open spec fn from_spec(v: u16) -> DecodedCodeUnit {
        DecodedCodeUnit::spec_from_char_code(v)
    }
}

} // verus!
