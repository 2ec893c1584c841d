//! A stream of code points read from source text, which keeps track of the
//! line and column it stands at. Line ends are LF, CRLF or CR, as in the
//! Language Server Protocol; the stream gives each as one LF.
use boa_string::JsStr;
use vstd::prelude::*;

use crate::string::code_point::CodePoint;
use crate::string::es_str::EsStr;
use crate::syntax::position::Position;
use crate::unicode::{code_point_at, code_point_len_at, lemma_surrogate_pair_value, max_code_point, pair_starts_at};

verus! {

/// Calls boa's `JsStr::code_point_at` on a UTF-16 string, and gives the number of
/// the code point it returns. boa reads a surrogate pair as the code point it
/// encodes and any other code unit as itself (an unpaired surrogate stays as it
/// is); it panics when `position` is not below the length.
#[verifier::external_body]
fn js_code_point_at(units: &[u16], position: usize) -> (r: u32)
    requires
        position < units@.len(),
    ensures
        r == code_point_at(units@, position as int),
{
    match JsStr::utf16(units).code_point_at(position) {
        boa_string::CodePoint::Unicode(c) => c as u32,
        boa_string::CodePoint::UnpairedSurrogate(surrogate) => surrogate as u32,
    }
}

/// The code unit of LF.
pub open spec fn lf() -> u16 {
    0x0A
}

/// The code unit of CR.
pub open spec fn cr() -> u16 {
    0x0D
}

/// The length of the line end that starts at index `i`: 1 for LF, 2 for CRLF,
/// 1 for a CR without LF after it, 0 where no line ends.
pub open spec fn eol_len(units: Seq<u16>, i: int) -> int {
    if 0 <= i < units.len() && units[i] == lf() {
        1
    } else if 0 <= i && i + 1 < units.len() && units[i] == cr() && units[i + 1] == lf() {
        2
    } else if 0 <= i < units.len() && units[i] == cr() {
        1
    } else {
        0
    }
}

/// The state of a stream: the source text, where the current line starts, and the
/// current line and column (the column counts code units).
pub struct StreamState {
    pub units: Seq<u16>,
    pub line_start: int,
    pub line: int,
    pub column: int,
}

impl StreamState {
    /// The index of the next code unit to read.
    pub open spec fn index(self) -> int {
        self.line_start + self.column
    }

    /// The position the stream stands at.
    pub open spec fn pos(self) -> Position {
        Position { line: self.line as usize, column: self.column as usize }
    }

    /// How many code units are left to read.
    pub open spec fn remaining(self) -> int {
        self.units.len() - self.index()
    }

    /// A well-formed state stands within a text whose length fits in a `usize`,
    /// and has passed a code unit for each line it has ended.
    pub open spec fn wf(self) -> bool {
        &&& self.units.len() <= usize::MAX
        &&& 0 <= self.line <= self.line_start
        &&& 0 <= self.column
        &&& self.index() <= self.units.len()
    }
}

/// The code point at the current index, without reading it (a CR stays a CR).
pub open spec fn spec_char(s: StreamState) -> Option<u32> {
    if 0 <= s.index() < s.units.len() {
        Some(code_point_at(s.units, s.index()))
    } else {
        None
    }
}

/// Reading one code point: a line end gives LF and moves to the start of the next
/// line; any other code point gives itself and moves the column past its code
/// units; at the end nothing is read.
pub open spec fn spec_next(s: StreamState) -> (StreamState, Option<u32>) {
    let i = s.index();
    let n = eol_len(s.units, i);
    if n > 0 {
        (StreamState { units: s.units, line_start: i + n, line: s.line + 1, column: 0 }, Some(0x0A))
    } else if 0 <= i < s.units.len() {
        (
            StreamState {
                units: s.units,
                line_start: s.line_start,
                line: s.line,
                column: s.column + code_point_len_at(s.units, i),
            },
            Some(code_point_at(s.units, i)),
        )
    } else {
        (s, None)
    }
}

/// The code point that `offset + 1` reads would give last, or `None` if the text
/// ends before.
pub open spec fn spec_char_nth(s: StreamState, offset: nat) -> Option<u32>
    decreases offset,
{
    let (s1, c) = spec_next(s);
    if offset == 0 {
        c
    } else if c is None {
        None
    } else {
        spec_char_nth(s1, (offset - 1) as nat)
    }
}

/// The numbers of an optional code point.
pub open spec fn opt_value(c: Option<CodePoint>) -> Option<u32> {
    match c {
        Some(cp) => Some(cp@),
        None => None,
    }
}

/// Reading one code point from a well-formed state that has some left keeps the
/// state well-formed and reads at least one code unit.
pub proof fn lemma_next_progress(s: StreamState)
    requires
        s.wf(),
    ensures
        spec_next(s).0.wf(),
        spec_next(s).0.units == s.units,
        s.remaining() > 0 ==> spec_next(s).1 is Some && spec_next(s).0.remaining() < s.remaining(),
        s.remaining() == 0 ==> spec_next(s).1 is None && spec_next(s).0 == s,
        spec_char(s) is Some <==> s.remaining() > 0,
        spec_char(s) is Some ==> spec_char(s).unwrap() <= max_code_point(),
        spec_next(s).1 is Some ==> spec_next(s).1.unwrap() <= max_code_point(),
{
    let i = s.index();
    if 0 <= i < s.units.len() && pair_starts_at(s.units, i) {
        lemma_surrogate_pair_value(s.units[i], s.units[i + 1]);
    }
}

/// Where the current code point is no line end, reading gives that code point.
pub proof fn lemma_next_plain(s: StreamState)
    requires
        spec_char(s) is Some,
        spec_char(s).unwrap() != 0x0A,
        spec_char(s).unwrap() != 0x0D,
    ensures
        eol_len(s.units, s.index()) == 0,
        spec_next(s).1 == spec_char(s),
{
    let i = s.index();
    if pair_starts_at(s.units, i) {
        lemma_surrogate_pair_value(s.units[i], s.units[i + 1]);
    }
}

/// Reads the code points of source text and keeps track of the position.
#[derive(Debug, Clone, Copy)]
pub struct CharStream<'a> {
    source: EsStr<'a>,
    line_start: usize,
    line_index: usize,
    column_index: usize,
}

impl<'a> CharStream<'a> {
    /// The state of the stream.
    pub closed spec fn state(&self) -> StreamState {
        StreamState {
            units: self.source@,
            line_start: self.line_start as int,
            line: self.line_index as int,
            column: self.column_index as int,
        }
    }

    /// The stream's state is well-formed.
    #[verifier::type_invariant]
    pub open spec fn inv(&self) -> bool {
        self.state().wf()
    }

    /// A stream at the start of `source`.
    pub fn new(source: EsStr<'a>) -> (r: CharStream<'a>)
        ensures
            r.state() == (StreamState { units: source@, line_start: 0, line: 0, column: 0 }),
    {
        proof {
            source.lemma_len_fits();
        }
        CharStream { source, line_start: 0, line_index: 0, column_index: 0 }
    }

    fn abs_index(&self) -> (r: usize)
        ensures
            r == self.state().index(),
    {
        proof {
            use_type_invariant(self);
        }
        self.line_start + self.column_index
    }

    /// The position the stream stands at.
    pub fn pos(&self) -> (r: Position)
        ensures
            r == self.state().pos(),
    {
        Position { line: self.line_index, column: self.column_index }
    }

    /// The code point at the current index, without reading it; `None` at the end.
    pub fn char(&self) -> (r: Option<CodePoint>)
        ensures
            opt_value(r) == spec_char(self.state()),
    {
        proof {
            use_type_invariant(self);
            lemma_next_progress(self.state());
        }
        let index = self.abs_index();
        let len = self.source.len();
        if index < len {
            let v = js_code_point_at(self.source.as_u16s(), index);
            match CodePoint::from_u32(v) {
                Some(c) => Some(c),
                None => None,
            }
        } else {
            None
        }
    }

    /// If a line end starts at the current index, moves to the start of the next
    /// line and gives `true`; else gives `false` and stays.
    pub fn try_read_eol(&mut self) -> (r: bool)
        ensures
            r == (eol_len(old(self).state().units, old(self).state().index()) > 0),
            r ==> final(self).state() == spec_next(old(self).state()).0,
            r ==> final(self).state().pos() == (Position {
                line: (old(self).state().pos().line + 1) as usize,
                column: 0,
            }) && old(self).state().pos().line < usize::MAX,
            !r ==> final(self).state() == old(self).state(),
    {
        proof {
            use_type_invariant(&*self);
        }
        let units = self.source.as_u16s();
        let index = self.abs_index();
        let len = units.len();
        let n: usize = if index < len && units[index] == 0x0A {
            1
        } else if index < len && len - index > 1 && units[index] == 0x0D && units[index + 1] == 0x0A {
            2
        } else if index < len && units[index] == 0x0D {
            1
        } else {
            0
        };
        if n > 0 {
            *self = CharStream {
                source: self.source,
                line_start: index + n,
                line_index: self.line_index + 1,
                column_index: 0,
            };
            true
        } else {
            false
        }
    }

    /// Reads one code point: a line end gives LF, any other code point gives
    /// itself; `None` at the end.
    pub fn next(&mut self) -> (r: Option<CodePoint>)
        ensures
            (final(self).state(), opt_value(r)) == spec_next(old(self).state()),
    {
        if self.try_read_eol() {
            return Some(CodePoint::from_char('\n'));
        }
        proof {
            use_type_invariant(&*self);
            lemma_next_progress(self.state());
        }
        let cp = match self.char() {
            Some(cp) => cp,
            None => return None,
        };
        let ghost i = self.state().index();
        proof {
            if pair_starts_at(self.state().units, i) {
                lemma_surrogate_pair_value(self.state().units[i], self.state().units[i + 1]);
            }
        }
        let column_index = self.column_index + cp.code_unit_count().as_usize();
        *self = CharStream { column_index, ..*self };
        Some(cp)
    }

    /// The code point that `offset + 1` reads would give last, without reading; `None`
    /// if the text ends before.
    pub fn char_nth(&self, offset: usize) -> (r: Option<CodePoint>)
        ensures
            opt_value(r) == spec_char_nth(self.state(), offset as nat),
    {
        let mut iter = *self;
        let mut k: usize = 0;
        loop
            invariant
                k <= offset,
                spec_char_nth(self.state(), offset as nat) == spec_char_nth(
                    iter.state(),
                    (offset - k) as nat,
                ),
            decreases offset - k,
        {
            let c = iter.next();
            if k == offset {
                return c;
            }
            match c {
                None => return None,
                Some(_) => {},
            }
            k = k + 1;
        }
    }

    /// Reads the current code point if `f` accepts it, and gives it; else stays
    /// and gives `None`.
    pub fn next_if<F: FnOnce(CodePoint) -> bool>(&mut self, f: F) -> (r: Option<CodePoint>)
        requires
            forall|cp: CodePoint| f.requires((cp,)),
        ensures
            spec_char(old(self).state()) is None ==> r is None
                && final(self).state() == old(self).state(),
            r matches Some(cp) ==> spec_char(old(self).state()) == Some(cp@)
                && f.ensures((cp,), true)
                && final(self).state() == spec_next(old(self).state()).0,
            (spec_char(old(self).state()) is Some && r is None) ==> f.ensures(
                (CodePoint::spec_new(spec_char(old(self).state()).unwrap()),),
                false,
            ) && final(self).state() == old(self).state(),
    {
        let next = match self.char() {
            Some(c) => c,
            None => return None,
        };
        proof {
            CodePoint::lemma_view(next@, next);
        }
        if f(next) {
            self.next();
            Some(next)
        } else {
            None
        }
    }

    /// Reads the current code point if it is `expected`, and gives it; else stays
    /// and gives `None`.
    pub fn next_if_eq(&mut self, expected: CodePoint) -> (r: Option<CodePoint>)
        ensures
            spec_char(old(self).state()) == Some(expected@) ==> r == Some(expected)
                && final(self).state() == spec_next(old(self).state()).0,
            spec_char(old(self).state()) != Some(expected@) ==> r is None
                && final(self).state() == old(self).state(),
    {
        let is_expected = |cp: CodePoint| -> (b: bool)
            ensures
                b == (cp@ == expected@),
            {
                proof {
                    CodePoint::lemma_eq(cp, expected);
                }
                cp == expected
            };
        let r = self.next_if(is_expected);
        proof {
            if let Some(cp) = r {
                CodePoint::lemma_eq(cp, expected);
            }
            CodePoint::lemma_view(expected@, expected);
        }
        r
    }
}

} // verus!
