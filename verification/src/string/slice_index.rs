//! Indexing a borrowed ECMAScript string by the range kinds of std: from a
//! position, up to a position, the whole, inclusive ranges and pairs of bounds.
use core::ops::{Bound, RangeFrom, RangeFull, RangeInclusive, RangeTo, RangeToInclusive};
use vstd::prelude::*;
use vstd::std_specs::range::RangeInclusiveView;

use crate::string::es_str::{EsStr, EsStrIndex};

verus! {

#[verifier::external_type_specification]
#[verifier::reject_recursive_types(Idx)]
pub struct ExRangeFrom<Idx>(RangeFrom<Idx>);

#[verifier::external_type_specification]
#[verifier::reject_recursive_types(Idx)]
pub struct ExRangeTo<Idx>(RangeTo<Idx>);

#[verifier::external_type_specification]
#[verifier::reject_recursive_types(Idx)]
pub struct ExRangeToInclusive<Idx>(RangeToInclusive<Idx>);

#[verifier::external_type_specification]
pub struct ExRangeFull(RangeFull);

#[verifier::external_type_specification]
#[verifier::reject_recursive_types(T)]
pub struct ExBound<T>(Bound<T>);

/// What `<[u16]>::get` gives for an inclusive range: the code units it selects,
/// or `None`.
pub uninterp spec fn inclusive_subslice(units: Seq<u16>, r: RangeInclusiveView<usize>) -> Option<
    Seq<u16>,
>;

/// The code units of an optional slice.
pub open spec fn opt_units(s: Option<&[u16]>) -> Option<Seq<u16>> {
    match s {
        Some(s) => Some(s@),
        None => None,
    }
}

/// Calls `<[u16]>::get` with an inclusive range. Its result is named. For a range
/// that iteration has not used up, std documents it: `None` when the end is not
/// below the length (an end of `usize::MAX` included) or the start lies past the
/// end plus one, else the code units from the start up to and including the end.
/// What it gives for a range that iteration has used up is left unsaid.
#[verifier::external_body]
fn slice_get_inclusive<'a>(units: &'a [u16], r: RangeInclusive<usize>) -> (o: Option<&'a [u16]>)
    ensures
        opt_units(o) == inclusive_subslice(units@, r@),
        !r@.exhausted ==> opt_units(o) == (if r@.end < units@.len() && r@.start
            <= r@.end + 1 {
            Some(units@.subrange(r@.start as int, r@.end + 1))
        } else {
            None
        }),
{
    units.get(r)
}

impl<'a> EsStrIndex<'a> for RangeFrom<usize> {
    type Output = EsStr<'a>;

    open spec fn in_bounds(&self, units: Seq<u16>) -> bool {
        self.start <= units.len()
    }

    open spec fn selects(&self, units: Seq<u16>, out: EsStr<'a>) -> bool {
        out@ == units.subrange(self.start as int, units.len() as int)
    }

    fn get(self, slice: EsStr<'a>) -> (r: Option<EsStr<'a>>) {
        let units = slice.as_u16s();
        if self.start <= units.len() {
            Some(EsStr::from_utf16(vstd::slice::slice_subrange(units, self.start, units.len())))
        } else {
            None
        }
    }

    fn index(self, slice: EsStr<'a>) -> (r: EsStr<'a>) {
        let units = slice.as_u16s();
        EsStr::from_utf16(vstd::slice::slice_subrange(units, self.start, units.len()))
    }
}

impl<'a> EsStrIndex<'a> for RangeTo<usize> {
    type Output = EsStr<'a>;

    open spec fn in_bounds(&self, units: Seq<u16>) -> bool {
        self.end <= units.len()
    }

    open spec fn selects(&self, units: Seq<u16>, out: EsStr<'a>) -> bool {
        out@ == units.subrange(0, self.end as int)
    }

    fn get(self, slice: EsStr<'a>) -> (r: Option<EsStr<'a>>) {
        let units = slice.as_u16s();
        if self.end <= units.len() {
            Some(EsStr::from_utf16(vstd::slice::slice_subrange(units, 0, self.end)))
        } else {
            None
        }
    }

    fn index(self, slice: EsStr<'a>) -> (r: EsStr<'a>) {
        EsStr::from_utf16(vstd::slice::slice_subrange(slice.as_u16s(), 0, self.end))
    }
}

impl<'a> EsStrIndex<'a> for RangeToInclusive<usize> {
    type Output = EsStr<'a>;

    open spec fn in_bounds(&self, units: Seq<u16>) -> bool {
        self.end < units.len()
    }

    open spec fn selects(&self, units: Seq<u16>, out: EsStr<'a>) -> bool {
        out@ == units.subrange(0, self.end + 1)
    }

    fn get(self, slice: EsStr<'a>) -> (r: Option<EsStr<'a>>) {
        let units = slice.as_u16s();
        if self.end < units.len() {
            Some(EsStr::from_utf16(vstd::slice::slice_subrange(units, 0, self.end + 1)))
        } else {
            None
        }
    }

    fn index(self, slice: EsStr<'a>) -> (r: EsStr<'a>) {
        proof {
            slice.lemma_len_fits();
        }
        EsStr::from_utf16(vstd::slice::slice_subrange(slice.as_u16s(), 0, self.end + 1))
    }
}

impl<'a> EsStrIndex<'a> for RangeFull {
    type Output = EsStr<'a>;

    open spec fn in_bounds(&self, units: Seq<u16>) -> bool {
        true
    }

    open spec fn selects(&self, units: Seq<u16>, out: EsStr<'a>) -> bool {
        out@ == units
    }

    fn get(self, slice: EsStr<'a>) -> (r: Option<EsStr<'a>>) {
        Some(slice)
    }

    fn index(self, slice: EsStr<'a>) -> (r: EsStr<'a>) {
        slice
    }
}

impl<'a> EsStrIndex<'a> for RangeInclusive<usize> {
    type Output = EsStr<'a>;

    open spec fn in_bounds(&self, units: Seq<u16>) -> bool {
        inclusive_subslice(units, self@) is Some
    }

    open spec fn selects(&self, units: Seq<u16>, out: EsStr<'a>) -> bool {
        inclusive_subslice(units, self@) == Some(out@)
    }

    fn get(self, slice: EsStr<'a>) -> (r: Option<EsStr<'a>>) {
        match slice_get_inclusive(slice.as_u16s(), self) {
            Some(units) => Some(EsStr::from_utf16(units)),
            None => None,
        }
    }

    fn index(self, slice: EsStr<'a>) -> (r: EsStr<'a>) {
        match slice_get_inclusive(slice.as_u16s(), self) {
            Some(units) => EsStr::from_utf16(units),
            None => slice,
        }
    }
}

/// The first index that a start bound selects: `None` for an excluded
/// `usize::MAX`, after which no index comes.
pub open spec fn start_of(b: Bound<usize>) -> Option<int> {
    match b {
        Bound::Included(s) => Some(s as int),
        Bound::Excluded(s) => if s < usize::MAX {
            Some(s + 1)
        } else {
            None
        },
        Bound::Unbounded => Some(0),
    }
}

/// The index after the last one that an end bound selects in a string of `len`
/// code units: `None` for an included `usize::MAX`.
pub open spec fn end_of(b: Bound<usize>, len: int) -> Option<int> {
    match b {
        Bound::Included(e) => if e < usize::MAX {
            Some(e + 1)
        } else {
            None
        },
        Bound::Excluded(e) => Some(e as int),
        Bound::Unbounded => Some(len),
    }
}

/// The start of a pair of bounds, as an index.
fn start_index(b: Bound<usize>) -> (r: Option<usize>)
    ensures
        r matches Some(s) ==> start_of(b) == Some(s as int),
        r is None ==> start_of(b) is None,
{
    match b {
        Bound::Included(s) => Some(s),
        Bound::Excluded(s) => if s < usize::MAX {
            Some(s + 1)
        } else {
            None
        },
        Bound::Unbounded => Some(0),
    }
}

/// The end of a pair of bounds, as an index, in a string of `len` code units.
fn end_index(b: Bound<usize>, len: usize) -> (r: Option<usize>)
    ensures
        r matches Some(e) ==> end_of(b, len as int) == Some(e as int),
        r is None ==> end_of(b, len as int) is None,
{
    match b {
        Bound::Included(e) => if e < usize::MAX {
            Some(e + 1)
        } else {
            None
        },
        Bound::Excluded(e) => Some(e),
        Bound::Unbounded => Some(len),
    }
}

impl<'a> EsStrIndex<'a> for (Bound<usize>, Bound<usize>) {
    type Output = EsStr<'a>;

    open spec fn in_bounds(&self, units: Seq<u16>) -> bool {
        &&& start_of(self.0) is Some
        &&& end_of(self.1, units.len() as int) is Some
        &&& start_of(self.0).unwrap() <= end_of(self.1, units.len() as int).unwrap() <= units.len()
    }

    open spec fn selects(&self, units: Seq<u16>, out: EsStr<'a>) -> bool {
        out@ == units.subrange(
            start_of(self.0).unwrap(),
            end_of(self.1, units.len() as int).unwrap(),
        )
    }

    fn get(self, slice: EsStr<'a>) -> (r: Option<EsStr<'a>>) {
        let units = slice.as_u16s();
        let start = match start_index(self.0) {
            Some(s) => s,
            None => return None,
        };
        let end = match end_index(self.1, units.len()) {
            Some(e) => e,
            None => return None,
        };
        if start <= end && end <= units.len() {
            Some(EsStr::from_utf16(vstd::slice::slice_subrange(units, start, end)))
        } else {
            None
        }
    }

    fn index(self, slice: EsStr<'a>) -> (r: EsStr<'a>) {
        let units = slice.as_u16s();
        let start = match start_index(self.0) {
            Some(s) => s,
            None => 0,
        };
        let end = match end_index(self.1, units.len()) {
            Some(e) => e,
            None => 0,
        };
        EsStr::from_utf16(vstd::slice::slice_subrange(units, start, end))
    }
}

} // verus!
