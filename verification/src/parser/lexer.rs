//! The lexer: reads tokens one after another.
use vstd::prelude::*;

use crate::char_stream::{CharStream, StreamState};
use crate::parser::error::AiScriptSyntaxError;
use crate::parser::match_token::{
    at_unicode_escape, lemma_match_token_wf, lemma_new_line_token, match_token, spec_match_token,
};
use crate::parser::skip_space::{
    lemma_skip_comment, lemma_skip_space, lemma_skip_whitespace_and_comments_stops,
    spec_skip_comment, spec_skip_space, spec_skip_whitespace_and_comments,
};
use crate::parser::token::{Token, TokenContentOf, TokenView};
use crate::syntax::position::{Position, Range};

verus! {

/// What reading a token in the default mode gives: the token, where it starts and
/// ends, and whether spaces stood before it.
pub struct ReadToken {
    pub content: TokenView,
    pub start: Position,
    pub end: Position,
    pub has_left_spacing: bool,
}

/// The state after skipping the spaces and a comment before a token.
pub open spec fn spec_token_start(s: StreamState) -> StreamState {
    spec_skip_comment(spec_skip_space(s).0).0
}

/// Reading a token in the default mode: skip spaces, then one comment, then read a
/// token; after a line end, skip whitespace and comments too, so that the next
/// token is no line end. Gives the state after, and the token or the position
/// where a block comment ran into the end of the text.
pub open spec fn spec_read_default_mode(s: StreamState) -> (StreamState, Result<ReadToken, Position>) {
    let (s1, has_left_spacing) = spec_skip_space(s);
    let (s2, comment) = spec_skip_comment(s1);
    match comment {
        Err(p) => (s2, Err(p)),
        Ok(_) => {
            let (s3, content) = spec_match_token(s2);
            let token = ReadToken { content, start: s2.pos(), end: s3.pos(), has_left_spacing };
            if content is NewLine {
                let (s4, r) = spec_skip_whitespace_and_comments(s3);
                match r {
                    Err(p) => (s4, Err(p)),
                    Ok(()) => (s4, Ok(token)),
                }
            } else {
                (s3, Ok(token))
            }
        },
    }
}

/// A line end token is never read twice in a row: after one, the lexer skips all
/// whitespace and comments, so the token after it is something else.
pub proof fn law_new_line_token_not_repeated(s: StreamState)
    requires
        s.wf(),
        spec_read_default_mode(s).1 matches Ok(t) && t.content is NewLine,
    ensures
        spec_read_default_mode(spec_read_default_mode(s).0).1 matches Ok(t) ==> !(t.content is NewLine),
{
    let (s1, _) = spec_skip_space(s);
    lemma_skip_space(s);
    lemma_skip_comment(s1);
    let (s2, _) = spec_skip_comment(s1);
    lemma_match_token_wf(s2);
    let (s3, _) = spec_match_token(s2);
    lemma_skip_whitespace_and_comments_stops(s3);
    let t = spec_skip_whitespace_and_comments(s3).0;
    assert(spec_read_default_mode(s).0 == t);
    assert(spec_skip_space(t) == (t, false));
    if spec_match_token(t).1 is NewLine {
        lemma_new_line_token(t);
    }
}

/// `r` is what `expected` describes.
pub open spec fn matches_read(r: Result<Token, AiScriptSyntaxError>, expected: Result<ReadToken, Position>) -> bool {
    match (r, expected) {
        (Ok(t), Ok(e)) => {
            &&& t.content@ == e.content
            &&& t.range == Range { start: e.start, end: e.end }
            &&& t.has_left_spacing == e.has_left_spacing
        },
        (Err(err), Err(p)) => err.source is UnexpectedEOF && err.pos == p,
        _ => false,
    }
}

/// Reads tokens from a stream of code points.
pub struct Lexer<'a> {
    stream: CharStream<'a>,
}

impl<'a> Lexer<'a> {
    /// The state of the stream the lexer reads.
    pub closed spec fn state(&self) -> StreamState {
        self.stream.state()
    }

    /// A lexer that reads `stream`.
    pub fn new(stream: CharStream<'a>) -> (r: Lexer<'a>)
        ensures
            r.state() == stream.state(),
    {
        Lexer { stream }
    }

    /// Reads the next token in the default mode. The token must not start with a
    /// unicode escape sequence.
    pub fn read_default_mode(&mut self) -> (r: Result<Token, AiScriptSyntaxError>)
        requires
            !at_unicode_escape(spec_token_start(old(self).state())),
        ensures
            final(self).state() == spec_read_default_mode(old(self).state()).0,
            matches_read(r, spec_read_default_mode(old(self).state()).1),
    {
        let has_left_spacing = self.stream.skip_space();
        match self.stream.skip_comment() {
            Ok(_) => {},
            Err(e) => return Err(e),
        }
        let start = self.stream.pos();
        let content = match_token(&mut self.stream);
        let end = self.stream.pos();
        let range = Range::new(start, end);
        let is_new_line = match content {
            TokenContentOf::NewLine => true,
            _ => false,
        };
        if is_new_line {
            match self.stream.skip_whitespace_and_comments() {
                Ok(()) => {},
                Err(e) => return Err(e),
            }
        }
        Ok(Token { content, range, has_left_spacing })
    }
}

} // verus!
