//! A stream of code points that can look ahead, and keeps track of the position
//! it has reached.
use std::collections::VecDeque;
use vstd::prelude::*;

use crate::parser::code_points::CARRIAGE_RETURN;
use crate::parser::pos_stream::{is_position_after, values_of, PosStream};
use crate::string::code_point::CodePoint;
use crate::syntax::position::Position;
use crate::unicode::decode;

verus! {

/// A code point read ahead, and the position after it.
#[derive(Debug)]
struct BufferEntry {
    code_point: CodePoint,
    pos: Position,
}

/// Reads code points one at a time, can look ahead without reading, and keeps
/// track of the position.
#[derive(Debug)]
pub struct PeekableStream {
    inner: PosStream,
    pos: Position,
    buffer: VecDeque<BufferEntry>,
}

impl PeekableStream {
    /// All the code points of the stream.
    pub closed spec fn source(&self) -> Seq<u32> {
        self.inner.source()
    }

    /// How many code points have been read.
    pub closed spec fn consumed(&self) -> int {
        self.inner.consumed() - self.buffer@.len()
    }

    /// The position after the code points read so far.
    pub closed spec fn spec_pos(&self) -> Position {
        self.pos
    }

    /// The code points that are still to be read.
    pub open spec fn rest(&self) -> Seq<u32> {
        self.source().skip(self.consumed())
    }

    /// The stream is well-formed: what it has read ahead are the next code points
    /// with the positions after them, and it stands at the position after what it
    /// has read.
    pub closed spec fn wf(&self) -> bool {
        let k = self.consumed();
        let src = self.source();
        &&& self.inner.wf()
        &&& 0 <= k
        &&& forall|j: int|
            0 <= j < self.buffer@.len() ==> (#[trigger] self.buffer@[j]).code_point@ == src[k + j]
                && is_position_after(self.buffer@[j].pos, src.take(k + j + 1))
        &&& is_position_after(self.pos, src.take(k))
    }

    /// A well-formed stream has read no more than it has.
    pub proof fn lemma_wf(&self)
        requires
            self.wf(),
        ensures
            0 <= self.consumed() <= self.source().len(),
            is_position_after(self.spec_pos(), self.source().take(self.consumed())),
    {
        self.inner.lemma_wf();
    }

    /// A stream of the code points of `inner`, at its start. It must have at most
    /// `usize::MAX / 2` code points, so that the column cannot overflow.
    pub fn new(inner: Vec<CodePoint>) -> (r: PeekableStream)
        requires
            inner@.len() <= usize::MAX / 2,
        ensures
            r.wf(),
            r.source() == values_of(inner@),
            r.consumed() == 0,
            r.spec_pos() == (Position { line: 0, column: 0 }),
    {
        let r = PeekableStream {
            inner: PosStream::new(inner),
            pos: Position::zero(),
            buffer: VecDeque::new(),
        };
        proof {
            assert(r.source().take(0) =~= Seq::<u32>::empty());
        }
        r
    }

    /// The position after the code points read so far.
    #[must_use]
    pub fn get_pos(&self) -> (r: &Position)
        ensures
            *r == self.spec_pos(),
    {
        &self.pos
    }

    /// The code point `index` places ahead, without reading it; `None` if the text
    /// ends before.
    #[must_use]
    pub fn peek(&mut self, index: usize) -> (r: Option<CodePoint>)
        requires
            old(self).wf(),
        ensures
            final(self).wf(),
            final(self).source() == old(self).source(),
            final(self).consumed() == old(self).consumed(),
            final(self).spec_pos() == old(self).spec_pos(),
            old(self).consumed() + index < old(self).source().len() ==> (r matches Some(c) && c@
                == old(self).source()[old(self).consumed() + index]),
            old(self).consumed() + index >= old(self).source().len() ==> r is None,
    {
        proof {
            self.lemma_wf();
            self.inner.lemma_wf();
        }
        if index < self.buffer.len() {
            return Some(self.buffer[index].code_point);
        }
        let ghost k = self.consumed();
        let ghost src = self.source();
        loop
            invariant
                self.wf(),
                self.source() == src,
                self.consumed() == k,
                self.spec_pos() == old(self).spec_pos(),
                src == old(self).source(),
                k == old(self).consumed(),
                self.buffer@.len() <= index,
            decreases src.len() - self.inner.consumed(),
        {
            proof {
                self.inner.lemma_wf();
            }
            let ghost b = self.buffer@;
            match self.inner.next() {
                Some(code_point) => {
                    let pos = *self.inner.get_pos();
                    self.buffer.push_back(BufferEntry { code_point, pos });
                    proof {
                        assert(self.buffer@ =~= b.push(BufferEntry { code_point, pos }));
                        assert forall|j: int| 0 <= j < self.buffer@.len() implies (
                        #[trigger] self.buffer@[j]).code_point@ == src[k + j] && is_position_after(
                            self.buffer@[j].pos,
                            src.take(k + j + 1),
                        ) by {
                            if j < b.len() {
                                assert(self.buffer@[j] == b[j]);
                            }
                        }
                    }
                    if self.buffer.len() - 1 == index {
                        return Some(code_point);
                    }
                },
                None => {
                    return None;
                },
            }
        }
    }

    /// Reads the next code point; `None` when all have been read.
    pub fn next(&mut self) -> (r: Option<CodePoint>)
        requires
            old(self).wf(),
        ensures
            final(self).wf(),
            final(self).source() == old(self).source(),
            old(self).consumed() < old(self).source().len() ==> (r matches Some(c) && c@ == old(
                self,
            ).source()[old(self).consumed()] && final(self).consumed() == old(self).consumed() + 1),
            old(self).consumed() >= old(self).source().len() ==> r is None && final(self).consumed()
                == old(self).consumed(),
            is_position_after(final(self).spec_pos(), final(self).source().take(final(self).consumed())),
    {
        proof {
            self.lemma_wf();
            self.inner.lemma_wf();
        }
        let ghost b = self.buffer@;
        match self.buffer.pop_front() {
            Some(entry) => {
                self.pos = entry.pos;
                proof {
                    assert forall|j: int| 0 <= j < self.buffer@.len() implies (
                    #[trigger] self.buffer@[j]).code_point@ == self.source()[self.consumed() + j]
                        && is_position_after(
                        self.buffer@[j].pos,
                        self.source().take(self.consumed() + j + 1),
                    ) by {
                        assert(self.buffer@[j] == b[j + 1]);
                    }
                    assert(b[0] == entry);
                }
                Some(entry.code_point)
            },
            None => {
                let maybe_code_point = self.inner.next();
                self.pos = *self.inner.get_pos();
                maybe_code_point
            },
        }
    }
}

/// Creates a stream of the code points of UTF-16 text `chars`, with every CR left
/// out. The text must have at most `usize::MAX / 2` code units.
pub fn create_char_stream(chars: Vec<u16>) -> (r: PeekableStream)
    requires
        chars@.len() <= usize::MAX / 2,
    ensures
        r.wf(),
        r.source() == decode(chars@).filter(|c: u32| c != CARRIAGE_RETURN),
        r.consumed() == 0,
        r.spec_pos() == (Position { line: 0, column: 0 }),
{
    let decoder = CodePoint::decode_utf16(chars);
    let decoded = decoder.collect_vec();
    let mut filtered: Vec<CodePoint> = Vec::new();
    let mut i: usize = 0;
    let ghost all = values_of(decoded@);
    proof {
        crate::string::code_point::lemma_decode_len(chars@);
    }
    while i < decoded.len()
        invariant
            all == values_of(decoded@),
            all.len() <= chars@.len(),
            i <= decoded@.len(),
            values_of(filtered@) == all.take(i as int).filter(|c: u32| c != CARRIAGE_RETURN),
            filtered@.len() <= i,
        decreases decoded@.len() - i,
    {
        let c = decoded[i];
        proof {
            assert(all.take(i + 1).drop_last() =~= all.take(i as int));
            reveal_with_fuel(Seq::filter, 1);
        }
        if c.as_u32() != CARRIAGE_RETURN {
            filtered.push(c);
        }
        proof {
            assert(values_of(filtered@) =~= all.take(i + 1).filter(|c: u32| c != CARRIAGE_RETURN));
        }
        i = i + 1;
    }
    proof {
        assert(all.take(i as int) =~= all);
    }
    PeekableStream::new(filtered)
}

} // verus!
