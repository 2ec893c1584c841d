//! Skipping spaces, line ends and comments.
use vstd::prelude::*;

use crate::char_stream::{
    lemma_next_progress, spec_char, spec_char_nth, spec_next, CharStream, StreamState,
};
use crate::parser::code_points::{
    is_space_char, is_whitespace_char, spec_is_space, spec_is_whitespace, ASTERISK, LINE_FEED,
    SOLIDUS,
};
use crate::parser::error::{matches_eof_result, AiScriptSyntaxError, AiScriptSyntaxErrorSource};
use crate::string::code_point::CodePoint;
use crate::unicode::{code_point_at, pair_starts_at};
use crate::syntax::position::Position;

verus! {

broadcast use CodePoint::lemma_view;

/// Skipping the code points that `p` accepts, as long as they come.
pub open spec fn spec_skip(s: StreamState, p: spec_fn(u32) -> bool) -> StreamState
    decreases s.remaining(),
    when s.wf()
{
    match spec_char(s) {
        Some(c) => if p(c) {
            proof {
                lemma_next_progress(s);
            }
            spec_skip(spec_next(s).0, p)
        } else {
            s
        },
        None => s,
    }
}

/// Skipping spaces: the state after, and whether there was any.
pub open spec fn spec_skip_space(s: StreamState) -> (StreamState, bool) {
    match spec_char(s) {
        Some(c) => if spec_is_space(c) {
            (spec_skip(spec_next(s).0, |c: u32| spec_is_space(c)), true)
        } else {
            (s, false)
        },
        None => (s, false),
    }
}

/// Skipping a line comment: its two opening code points, then all up to the line
/// end.
pub open spec fn spec_skip_line_comment(s: StreamState) -> StreamState {
    spec_skip(spec_next(spec_next(s).0).0, |c: u32| c != LINE_FEED)
}

/// Skipping the body of a block comment up to and including the first `*/`:
/// the state after, and the position where the text ended if it ended first.
pub open spec fn spec_block_comment_body(s: StreamState) -> (StreamState, Result<(), Position>)
    decreases s.remaining(),
    when s.wf()
{
    let (s1, c1) = spec_next(s);
    match c1 {
        None => (s1, Err(s1.pos())),
        Some(c1) => {
            proof {
                lemma_next_progress(s);
            }
            if c1 == ASTERISK && spec_char(s1) == Some(SOLIDUS) {
                (spec_next(s1).0, Ok(()))
            } else {
                spec_block_comment_body(s1)
            }
        },
    }
}

/// Skipping a block comment: its two opening code points, then the body.
pub open spec fn spec_skip_block_comment(s: StreamState) -> (StreamState, Result<(), Position>) {
    spec_block_comment_body(spec_next(spec_next(s).0).0)
}

/// Skipping one comment if the stream is at one: the state after, and whether a
/// comment was skipped, or the position where a block comment ran into the end.
pub open spec fn spec_skip_comment(s: StreamState) -> (StreamState, Result<bool, Position>) {
    if spec_char(s) != Some(SOLIDUS) {
        (s, Ok(false))
    } else {
        match spec_char_nth(s, 1) {
            None => (s, Ok(false)),
            Some(next) => if next == ASTERISK {
                let (s1, r) = spec_skip_block_comment(s);
                match r {
                    Ok(()) => (s1, Ok(true)),
                    Err(p) => (s1, Err(p)),
                }
            } else if next == SOLIDUS {
                (spec_skip_line_comment(s), Ok(true))
            } else {
                (s, Ok(false))
            },
        }
    }
}

/// Skipping whitespace and comments, as long as they come.
pub open spec fn spec_skip_whitespace_and_comments(s: StreamState) -> (
    StreamState,
    Result<(), Position>,
)
    decreases s.remaining(),
    when s.wf()
{
    let s1 = spec_skip(s, |c: u32| spec_is_whitespace(c));
    let (s2, r) = spec_skip_comment(s1);
    match r {
        Err(p) => (s2, Err(p)),
        Ok(false) => (s2, Ok(())),
        Ok(true) => {
            proof {
                lemma_skip(s, |c: u32| spec_is_whitespace(c));
                lemma_skip_comment(s1);
            }
            spec_skip_whitespace_and_comments(s2)
        },
    }
}

/// Skipping keeps the state well-formed and never moves it back.
pub proof fn lemma_skip(s: StreamState, p: spec_fn(u32) -> bool)
    requires
        s.wf(),
    ensures
        spec_skip(s, p).wf(),
        spec_skip(s, p).units == s.units,
        spec_skip(s, p).remaining() <= s.remaining(),
    decreases s.remaining(),
{
    lemma_next_progress(s);
    if let Some(c) = spec_char(s) {
        if p(c) {
            lemma_skip(spec_next(s).0, p);
        }
    }
}

/// Skipping a block comment body keeps the state well-formed.
pub proof fn lemma_block_comment_body(s: StreamState)
    requires
        s.wf(),
    ensures
        spec_block_comment_body(s).0.wf(),
        spec_block_comment_body(s).0.units == s.units,
        spec_block_comment_body(s).0.remaining() <= s.remaining(),
    decreases s.remaining(),
{
    lemma_next_progress(s);
    let (s1, c1) = spec_next(s);
    lemma_next_progress(s1);
    if let Some(c1) = c1 {
        if !(c1 == ASTERISK && spec_char(s1) == Some(SOLIDUS)) {
            lemma_block_comment_body(s1);
        }
    }
}

/// Skipping a comment keeps the state well-formed, and moves on where a comment
/// was skipped.
pub proof fn lemma_skip_comment(s: StreamState)
    requires
        s.wf(),
    ensures
        spec_skip_comment(s).0.wf(),
        spec_skip_comment(s).0.units == s.units,
        spec_skip_comment(s).0.remaining() <= s.remaining(),
        spec_skip_comment(s).1 == Ok::<bool, Position>(true) ==> spec_skip_comment(s).0.remaining()
            < s.remaining(),
{
    lemma_next_progress(s);
    let s1 = spec_next(s).0;
    lemma_next_progress(s1);
    let s2 = spec_next(s1).0;
    if spec_char(s) == Some(SOLIDUS) {
        lemma_block_comment_body(s2);
        lemma_skip(s2, |c: u32| c != LINE_FEED);
    }
}

/// Skipping spaces keeps the state well-formed.
pub proof fn lemma_skip_space(s: StreamState)
    requires
        s.wf(),
    ensures
        spec_skip_space(s).0.wf(),
        spec_skip_space(s).0.units == s.units,
{
    lemma_next_progress(s);
    lemma_skip(spec_next(s).0, |c: u32| spec_is_space(c));
}

/// Skipping spaces from a state reads only spaces and tabs, each as one code
/// unit on the same line: the state after stands further on the same line, and
/// every code unit passed is a space (0x20) or a tab (0x09).
proof fn lemma_skip_spaces_read(s: StreamState)
    requires
        s.wf(),
    ensures
        ({
            let t = spec_skip(s, |c: u32| spec_is_space(c));
            &&& t.units == s.units
            &&& t.line == s.line
            &&& t.line_start == s.line_start
            &&& s.column <= t.column
            &&& forall|k: int|
                s.index() <= k < t.index() ==> (#[trigger] s.units[k] == 0x20u16 || s.units[k]
                    == 0x09u16)
        }),
    decreases s.remaining(),
{
    let p = |c: u32| spec_is_space(c);
    lemma_next_progress(s);
    if let Some(c) = spec_char(s) {
        if p(c) {
            let i = s.index();
            assert(!pair_starts_at(s.units, i));
            let s1 = spec_next(s).0;
            assert(s1.index() == i + 1);
            lemma_skip_spaces_read(s1);
        }
    }
}

/// Skipping spaces reads the spaces (0x20) and tabs (0x09) that come first, and
/// nothing else: it reports whether the first code point is one of them, it
/// stops at a code point that is neither, or at the end of the text, every code
/// unit it passes is a space or a tab, and it stays on the same line.
pub proof fn law_skip_space(s: StreamState)
    requires
        s.wf(),
    ensures
        ({
            let (t, skipped) = spec_skip_space(s);
            &&& skipped <==> (spec_char(s) == Some(0x20u32) || spec_char(s) == Some(0x09u32))
            &&& spec_char(t) matches Some(c) ==> c != 0x20u32 && c != 0x09u32
            &&& t.wf()
            &&& t.units == s.units
            &&& t.line == s.line
            &&& s.index() <= t.index()
            &&& forall|k: int|
                s.index() <= k < t.index() ==> (#[trigger] s.units[k] == 0x20u16 || s.units[k]
                    == 0x09u16)
            &&& !skipped ==> t == s
        }),
{
    let p = |c: u32| spec_is_space(c);
    lemma_next_progress(s);
    lemma_skip_space(s);
    if let Some(c) = spec_char(s) {
        if p(c) {
            let i = s.index();
            assert(!pair_starts_at(s.units, i));
            let s1 = spec_next(s).0;
            assert(s1.index() == i + 1);
            lemma_skip_spaces_read(s1);
            lemma_skip_stops(s1, p);
            let t = spec_skip(s1, p);
            assert forall|k: int| s.index() <= k < t.index() implies (#[trigger] s.units[k]
                == 0x20u16 || s.units[k] == 0x09u16) by {
                if k == i {
                    assert(code_point_at(s.units, i) == s.units[i] as u32);
                }
            }
        }
    }
}

/// Skipping stops where the text ends or at a code point that `p` refuses.
pub proof fn lemma_skip_stops(s: StreamState, p: spec_fn(u32) -> bool)
    requires
        s.wf(),
    ensures
        spec_char(spec_skip(s, p)) matches Some(c) ==> !p(c),
    decreases s.remaining(),
{
    lemma_next_progress(s);
    if let Some(c) = spec_char(s) {
        if p(c) {
            lemma_skip_stops(spec_next(s).0, p);
        }
    }
}

/// Where skipping whitespace and comments succeeds, it stops at neither: no
/// whitespace comes next, and no comment starts there.
pub proof fn lemma_skip_whitespace_and_comments_stops(s: StreamState)
    requires
        s.wf(),
    ensures
        spec_skip_whitespace_and_comments(s).1 is Ok ==> {
            let t = spec_skip_whitespace_and_comments(s).0;
            &&& t.wf()
            &&& spec_char(t) matches Some(c) ==> !spec_is_whitespace(c)
            &&& spec_skip_comment(t) == (t, Ok::<bool, Position>(false))
        },
    decreases s.remaining(),
{
    let p = |c: u32| spec_is_whitespace(c);
    let s1 = spec_skip(s, p);
    lemma_skip(s, p);
    lemma_skip_stops(s, p);
    lemma_skip_comment(s1);
    let (s2, r) = spec_skip_comment(s1);
    if r == Ok::<bool, Position>(true) {
        lemma_skip_whitespace_and_comments_stops(s2);
    }
}

/// Skips the code points that `predicate` accepts, as long as they come.
fn skip<F: Fn(CodePoint) -> bool>(
    stream: &mut CharStream<'_>,
    predicate: F,
    Ghost(p): Ghost<spec_fn(u32) -> bool>,
)
    requires
        forall|c: CodePoint| predicate.requires((c,)),
        forall|c: CodePoint, b: bool| predicate.ensures((c,), b) ==> b == p(c@),
    ensures
        final(stream).state() == spec_skip(old(stream).state(), p),
{
    let ghost s0 = stream.state();
    proof {
        use_type_invariant(&*stream);
    }
    loop
        invariant
            s0 == old(stream).state(),
            forall|c: CodePoint| predicate.requires((c,)),
            forall|c: CodePoint, b: bool| predicate.ensures((c,), b) ==> b == p(c@),
            stream.state().wf(),
            spec_skip(s0, p) == spec_skip(stream.state(), p),
        decreases stream.state().remaining(),
    {
        proof {
            use_type_invariant(&*stream);
            lemma_next_progress(stream.state());
        }
        let go = match stream.char() {
            Some(c) => predicate(c),
            None => false,
        };
        if !go {
            return;
        }
        stream.next();
    }
}

/// Skips a line comment: the two code points that open it, then all up to the line
/// end.
fn skip_line_comment(stream: &mut CharStream<'_>)
    ensures
        final(stream).state() == spec_skip_line_comment(old(stream).state()),
{
    stream.next();
    stream.next();
    proof {
        use_type_invariant(&*stream);
    }
    skip(stream, not_line_feed, Ghost(|c: u32| c != LINE_FEED));
}

/// Whether a code point is not LF.
fn not_line_feed(c: CodePoint) -> (r: bool)
    ensures
        r == (c@ != LINE_FEED),
{
    c.as_u32() != LINE_FEED
}

/// Skips a block comment: the two code points that open it, then all up to and
/// including the first `*/`. Fails where the text ends first.
fn skip_block_comment(stream: &mut CharStream<'_>) -> (r: Result<(), AiScriptSyntaxError>)
    ensures
        final(stream).state() == spec_skip_block_comment(old(stream).state()).0,
        matches_eof_result(r, spec_skip_block_comment(old(stream).state()).1),
{
    stream.next();
    stream.next();
    let ghost s0 = stream.state();
    proof {
        use_type_invariant(&*stream);
    }
    loop
        invariant
            stream.state().wf(),
            spec_block_comment_body(s0) == spec_block_comment_body(stream.state()),
            s0 == spec_next(spec_next(old(stream).state()).0).0,
        decreases stream.state().remaining(),
    {
        proof {
            use_type_invariant(&*stream);
            lemma_next_progress(stream.state());
            lemma_next_progress(spec_next(stream.state()).0);
        }
        let ghost prev = stream.state();
        let c1 = match require_next_char(stream) {
            Ok(c) => c,
            Err(e) => {
                proof {
                    assert(spec_block_comment_body(prev) == (stream.state(), Err::<(), Position>(e.pos)));
                }
                return Err(e);
            },
        };
        let closes = c1.as_u32() == ASTERISK && match stream.char() {
            Some(c2) => c2.as_u32() == SOLIDUS,
            None => false,
        };
        if closes {
            stream.next();
            proof {
                assert(spec_block_comment_body(prev) == (stream.state(), Ok::<(), Position>(())));
            }
            return Ok(());
        }
        proof {
            assert(spec_block_comment_body(prev) == spec_block_comment_body(stream.state()));
        }
    }
}

/// Reads one code point; fails if the text has ended.
fn require_next_char(stream: &mut CharStream<'_>) -> (r: Result<CodePoint, AiScriptSyntaxError>)
    ensures
        final(stream).state() == spec_next(old(stream).state()).0,
        spec_next(old(stream).state()).1 matches Some(c) ==> r matches Ok(cp) && cp@ == c,
        spec_next(old(stream).state()).1 is None ==> (r matches Err(e) && e.source is UnexpectedEOF
            && e.pos == final(stream).state().pos()),
{
    match stream.next() {
        Some(c) => Ok(c),
        None => Err(
            AiScriptSyntaxError { source: AiScriptSyntaxErrorSource::UnexpectedEOF, pos: stream.pos() },
        ),
    }
}

impl<'a> CharStream<'a> {
    /// Skips spaces and tabs; line ends and comments stay. Gives whether any was
    /// skipped.
    pub fn skip_space(&mut self) -> (r: bool)
        ensures
            (final(self).state(), r) == spec_skip_space(old(self).state()),
    {
        let first = match self.char() {
            Some(c) => is_space_char(c),
            None => false,
        };
        if first {
            self.next();
            proof {
                use_type_invariant(&*self);
            }
            skip(self, is_space_char, Ghost(|c: u32| spec_is_space(c)));
            true
        } else {
            false
        }
    }

    /// Skips one comment if the stream is at one. Gives whether a comment was
    /// skipped; fails where a block comment has no end.
    pub fn skip_comment(&mut self) -> (r: Result<bool, AiScriptSyntaxError>)
        ensures
            final(self).state() == spec_skip_comment(old(self).state()).0,
            matches_eof_result(r, spec_skip_comment(old(self).state()).1),
    {
        let at_solidus = match self.char() {
            Some(c) => c.as_u32() == SOLIDUS,
            None => false,
        };
        if !at_solidus {
            return Ok(false);
        }
        let next = match self.char_nth(1) {
            Some(c) => c,
            None => return Ok(false),
        };
        if next.as_u32() == ASTERISK {
            match skip_block_comment(self) {
                Ok(()) => Ok(true),
                Err(e) => Err(e),
            }
        } else if next.as_u32() == SOLIDUS {
            skip_line_comment(self);
            Ok(true)
        } else {
            Ok(false)
        }
    }

    /// Skips whitespace (spaces and line ends) and comments, as long as they come;
    /// fails where a block comment has no end.
    pub fn skip_whitespace_and_comments(&mut self) -> (r: Result<(), AiScriptSyntaxError>)
        ensures
            final(self).state() == spec_skip_whitespace_and_comments(old(self).state()).0,
            matches_eof_result(r, spec_skip_whitespace_and_comments(old(self).state()).1),
    {
        let ghost s0 = self.state();
        proof {
            use_type_invariant(&*self);
        }
        loop
            invariant
                s0 == old(self).state(),
                self.state().wf(),
                spec_skip_whitespace_and_comments(s0) == spec_skip_whitespace_and_comments(
                    self.state(),
                ),
            decreases self.state().remaining(),
        {
            proof {
                use_type_invariant(&*self);
                lemma_skip(self.state(), |c: u32| spec_is_whitespace(c));
                lemma_skip_comment(spec_skip(self.state(), |c: u32| spec_is_whitespace(c)));
            }
            let ghost prev = self.state();
            skip(self, is_whitespace_char, Ghost(|c: u32| spec_is_whitespace(c)));
            match self.skip_comment() {
                Err(e) => {
                    proof {
                        assert(spec_skip_whitespace_and_comments(prev) == (
                            self.state(),
                            Err::<(), Position>(e.pos),
                        ));
                    }
                    return Err(e);
                },
                Ok(false) => {
                    proof {
                        assert(spec_skip_whitespace_and_comments(prev) == (
                            self.state(),
                            Ok::<(), Position>(()),
                        ));
                    }
                    return Ok(());
                },
                Ok(true) => {
                    proof {
                        assert(spec_skip_whitespace_and_comments(prev)
                            == spec_skip_whitespace_and_comments(self.state()));
                    }
                },
            }
        }
    }
}

} // verus!
