//! A sequence of code points read one at a time, which keeps track of the
//! position it has reached.
use vstd::prelude::*;

use crate::parser::code_points::LINE_FEED;
use crate::string::code_point::CodePoint;
use crate::syntax::position::Position;
use crate::unicode::code_unit_count;

verus! {

/// The line and column after reading code points `cps` from the start: LF starts
/// a new line, any other code point moves the column past its UTF-16 code units.
pub open spec fn position_after(cps: Seq<u32>) -> (int, int)
    decreases cps.len(),
{
    if cps.len() == 0 {
        (0, 0)
    } else {
        let (line, column) = position_after(cps.drop_last());
        if cps.last() == LINE_FEED {
            (line + 1, 0)
        } else {
            (line, column + code_unit_count(cps.last()))
        }
    }
}

/// `pos` is the position after reading `cps`.
pub open spec fn is_position_after(pos: Position, cps: Seq<u32>) -> bool {
    pos.line == position_after(cps).0 && pos.column == position_after(cps).1
}

/// The line is at most the number of code points read, the column at most twice.
pub proof fn lemma_position_after_bound(cps: Seq<u32>)
    ensures
        0 <= position_after(cps).0 <= cps.len(),
        0 <= position_after(cps).1 <= 2 * cps.len(),
    decreases cps.len(),
{
    if cps.len() > 0 {
        lemma_position_after_bound(cps.drop_last());
    }
}

/// The code points of a vector, by number.
pub open spec fn values_of(v: Seq<CodePoint>) -> Seq<u32> {
    v.map_values(|c: CodePoint| c@)
}

/// Reads code points one at a time, and keeps track of the position.
#[derive(Debug)]
pub struct PosStream {
    inner: Vec<CodePoint>,
    index: usize,
    pos: Position,
}

impl PosStream {
    /// All the code points of the stream.
    pub closed spec fn source(&self) -> Seq<u32> {
        values_of(self.inner@)
    }

    /// How many code points have been read.
    pub closed spec fn consumed(&self) -> nat {
        self.index as nat
    }

    /// The position after the code points read so far.
    pub closed spec fn spec_pos(&self) -> Position {
        self.pos
    }

    /// The stream is well-formed: it has read no more than it has, and its position
    /// is the position after what it has read.
    pub closed spec fn wf(&self) -> bool {
        &&& self.index <= self.inner@.len()
        &&& self.inner@.len() <= usize::MAX / 2
        &&& is_position_after(self.pos, self.source().take(self.index as int))
    }

    /// A well-formed stream has read no more than it has, and stands at the position
    /// after what it has read.
    pub proof fn lemma_wf(&self)
        requires
            self.wf(),
        ensures
            self.consumed() <= self.source().len() <= usize::MAX / 2,
            is_position_after(self.spec_pos(), self.source().take(self.consumed() as int)),
    {
    }

    /// A stream of the code points of `inner`, at its start. It must have at most
    /// `usize::MAX / 2` code points, so that the column cannot overflow.
    pub fn new(inner: Vec<CodePoint>) -> (r: PosStream)
        requires
            inner@.len() <= usize::MAX / 2,
        ensures
            r.source() == values_of(inner@),
            r.consumed() == 0,
            r.spec_pos() == (Position { line: 0, column: 0 }),
            r.wf(),
    {
        PosStream { inner, index: 0, pos: Position::zero() }
    }

    /// The position after the code points read so far.
    #[must_use]
    pub fn get_pos(&self) -> (r: &Position)
        ensures
            *r == self.spec_pos(),
    {
        &self.pos
    }

    /// Reads the next code point; `None` when all have been read.
    pub fn next(&mut self) -> (r: Option<CodePoint>)
        requires
            old(self).wf(),
        ensures
            final(self).wf(),
            final(self).source() == old(self).source(),
            old(self).consumed() < old(self).source().len() ==> (r matches Some(c) && c@ == old(
                self,
            ).source()[old(self).consumed() as int] && final(self).consumed() == old(self).consumed()
                + 1),
            old(self).consumed() >= old(self).source().len() ==> r is None && final(self).consumed()
                == old(self).consumed() && final(self).spec_pos() == old(self).spec_pos(),
            is_position_after(
                final(self).spec_pos(),
                final(self).source().take(final(self).consumed() as int),
            ),
    {
        if self.index >= self.inner.len() {
            return None;
        }
        let c = self.inner[self.index];
        let ghost src = self.source();
        let ghost k = self.index as int;
        proof {
            lemma_position_after_bound(src.take(k));
            assert(src.take(k + 1).drop_last() =~= src.take(k));
            assert(src.take(k + 1).last() == c@);
        }
        let pos = if c.as_u32() == LINE_FEED {
            Position { line: self.pos.line + 1, column: 0 }
        } else {
            Position {
                line: self.pos.line,
                column: self.pos.column + c.code_unit_count().as_usize(),
            }
        };
        self.index = self.index + 1;
        self.pos = pos;
        Some(c)
    }
}

} // verus!
