//! Syntax errors.
use vstd::prelude::*;

use crate::string::code_point::CodePoint;
use crate::string::es_string::EsString;
use crate::syntax::position::Position;

verus! {

/// A syntax error and where it was found.
#[derive(Debug, Clone, PartialEq, Eq)]
pub struct AiScriptSyntaxError {
    pub source: AiScriptSyntaxErrorSource,
    pub pos: Position,
}

/// What a syntax error is.
#[derive(Debug, Clone, PartialEq, Eq)]
pub enum AiScriptSyntaxErrorSource {
    /// the text ended where more was needed
    UnexpectedEOF,
    /// a sequence of characters that is not allowed
    InvalidCharacterSequence(EsString),
    /// a character that is not allowed
    InvalidCharacter(CodePoint),
}

/// `r` is the result `expected` describes: the same value, or the error that the
/// text ended, found at the given position.
pub open spec fn matches_eof_result<T>(
    r: Result<T, AiScriptSyntaxError>,
    expected: Result<T, Position>,
) -> bool {
    match (r, expected) {
        (Ok(a), Ok(b)) => a == b,
        (Err(e), Err(p)) => e.source is UnexpectedEOF && e.pos == p,
        _ => false,
    }
}

} // verus!
