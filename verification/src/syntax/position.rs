//! Positions in source text.
use core::cmp::Ordering;
use vstd::prelude::*;
use vstd::std_specs::cmp::PartialOrdSpecImpl;
use vstd::string::StringExecFns;

use crate::text::{decimal, decimal_string};

verus! {

/// A position in source text; line and column are zero-based, and the column
/// counts UTF-16 code units.
#[derive(Debug, Clone, Copy, PartialEq, Eq, Structural, Ord, Hash)]
pub struct Position {
    /// zero-based index
    pub line: usize,
    /// zero-based index
    pub column: usize,
}

impl Position {
    /// The start of the text: line 0, column 0.
    pub fn zero() -> (r: Position)
        ensures
            r.line == 0,
            r.column == 0,
    {
        Position { line: 0, column: 0 }
    }

    /// The text of the position, counting lines and columns from one:
    /// `(Line l, Column c)`.
    pub open spec fn spec_text(self) -> Seq<char> {
        "(Line "@ + decimal((self.line + 1) as nat) + ", Column "@ + decimal(
            (self.column + 1) as nat,
        ) + ")"@
    }

    /// The text of the position, counting lines and columns from one:
    /// `(Line l, Column c)`. Neither may be `usize::MAX`.
    pub fn to_string(&self) -> (r: String)
        requires
            self.line < usize::MAX,
            self.column < usize::MAX,
        ensures
            r@ == self.spec_text(),
    {
        let mut s = String::new();
        s.append("(Line ");
        s.append(decimal_string(self.line + 1).as_str());
        s.append(", Column ");
        s.append(decimal_string(self.column + 1).as_str());
        s.append(")");
        s
    }
}

/// Positions are ordered by line, and on the same line by column.
pub open spec fn position_order(a: Position, b: Position) -> Ordering {
    if a.line < b.line {
        Ordering::Less
    } else if a.line > b.line {
        Ordering::Greater
    } else if a.column < b.column {
        Ordering::Less
    } else if a.column > b.column {
        Ordering::Greater
    } else {
        Ordering::Equal
    }
}

/// The order of positions is total and agrees with equality: two positions
/// compare equal exactly when they are equal, swapping them reverses the order,
/// and the order is transitive.
pub proof fn law_position_order(a: Position, b: Position, c: Position)
    ensures
        (position_order(a, b) == Ordering::Equal) <==> a == b,
        (position_order(a, b) == Ordering::Less) <==> (position_order(b, a) == Ordering::Greater),
        (position_order(a, b) == Ordering::Less && position_order(b, c) == Ordering::Less)
            ==> position_order(a, c) == Ordering::Less,
        (position_order(a, b) == Ordering::Less) <==> (a.line < b.line || (a.line == b.line
            && a.column < b.column)),
{
}

impl PartialOrd for Position {
    fn partial_cmp(&self, other: &Position) -> (r: Option<Ordering>) {
        if self.line < other.line {
            Some(Ordering::Less)
        } else if self.line > other.line {
            Some(Ordering::Greater)
        } else if self.column < other.column {
            Some(Ordering::Less)
        } else if self.column > other.column {
            Some(Ordering::Greater)
        } else {
            Some(Ordering::Equal)
        }
    }
}

impl PartialOrdSpecImpl for Position {
    open spec fn obeys_partial_cmp_spec() -> bool {
        true
    }

    open spec fn partial_cmp_spec(&self, other: &Position) -> Option<Ordering> {
        Some(position_order(*self, *other))
    }
}

/// A range of source text.
#[derive(Debug, Clone, Copy, PartialEq, Eq)]
pub struct Range {
    /// inclusive
    pub start: Position,
    /// exclusive
    pub end: Position,
}

impl Range {
    /// The range from `start` to `end`.
    pub fn new(start: Position, end: Position) -> (r: Range)
        ensures
            r.start == start,
            r.end == end,
    {
        Range { start, end }
    }

    /// The empty range at `pos`.
    pub fn zero_width(pos: Position) -> (r: Range)
        ensures
            r.start == pos,
            r.end == pos,
    {
        let cloned = pos;
        Range { start: pos, end: cloned }
    }
}

} // verus!
