//! Reading one token from a peekable stream of code points. This reader knows
//! line feeds, string literals and punctuation; the stream must start with one of
//! them, or be at its end.
use vstd::prelude::*;

use crate::parser::code_points::{
    AMPERSAND, APOSTROPHE, ASTERISK, CIRCUMFLEX_ACCENT, COLON, COMMA, COMMERCIAL_AT, EQUALS_SIGN,
    EXCLAMATION_MARK, FULL_STOP, GREATER_THAN_SIGN, HYPHEN_MINUS, LATIN_SMALL_LETTER_U,
    LEFT_CURLY_BRACKET, LEFT_PARENTHESIS, LEFT_SQUARE_BRACKET, LESS_THAN_SIGN, LINE_FEED,
    NUMBER_SIGN, PERCENT_SIGN, PLUS_SIGN, QUESTION_MARK, QUOTATION_MARK, REVERSE_SOLIDUS,
    RIGHT_CURLY_BRACKET, RIGHT_PARENTHESIS, RIGHT_SQUARE_BRACKET, SEMICOLON, SOLIDUS,
    VERTICAL_LINE,
};
use crate::parser::match_token::number_sign_2;
use crate::parser::peekable_stream::PeekableStream;
use crate::parser::token::{TokenContent, TokenContentOf, TokenView};
use crate::string::code_point::CodePoint;
use crate::string::es_string::EsString;
use crate::unicode::encode;

verus! {

/// The code point `i` places ahead in `rest`, if there is one.
pub open spec fn ahead(rest: Seq<u32>, i: int) -> Option<u32> {
    if 0 <= i < rest.len() {
        Some(rest[i])
    } else {
        None
    }
}

/// How many of `n` reads from `rest` find a code point.
pub open spec fn reads(rest: Seq<u32>, n: int) -> int {
    if n <= rest.len() {
        n
    } else {
        rest.len() as int
    }
}

/// Reading the rest of a string literal that `mark` opened, from index `i` of
/// `rest`, with `value` read so far; `escape` says that a reverse solidus came
/// just before. Gives how many code points of `rest` are read in all, and the
/// token.
pub open spec fn spec_peek_string_body(
    rest: Seq<u32>,
    i: int,
    mark: u32,
    escape: bool,
    value: Seq<u16>,
) -> (int, TokenView)
    decreases rest.len() - i,
{
    if i >= rest.len() {
        (rest.len() as int, TokenContentOf::IncompleteStringLiteral)
    } else {
        let c = rest[i];
        if escape {
            spec_peek_string_body(rest, i + 1, mark, false, value + encode(c))
        } else if c == REVERSE_SOLIDUS {
            spec_peek_string_body(rest, i + 1, mark, true, value)
        } else if c == mark {
            (i + 1, TokenContentOf::StringLiteral(value))
        } else {
            spec_peek_string_body(rest, i + 1, mark, false, value + encode(c))
        }
    }
}

/// Reading a string literal from `rest`, whose first code point is the quotation
/// mark that closes it.
pub open spec fn spec_peek_string_literal(rest: Seq<u32>) -> (int, TokenView) {
    spec_peek_string_body(rest, 1, rest[0], false, Seq::empty())
}

/// `rest` starts with a quotation mark or an apostrophe.
pub open spec fn starts_peek_string_literal(rest: Seq<u32>) -> bool {
    ahead(rest, 0) == Some(QUOTATION_MARK) || ahead(rest, 0) == Some(APOSTROPHE)
}

/// A token of one code point.
pub open spec fn peek_one(rest: Seq<u32>, t: TokenView) -> (int, TokenView) {
    (reads(rest, 1), t)
}

/// A token that may take a second code point: `both`, with two code points read,
/// if the second code point is `second`, else `single`, with one read.
pub open spec fn peek_two(rest: Seq<u32>, second: u32, both: TokenView, single: TokenView) -> (
    int,
    TokenView,
) {
    if ahead(rest, 1) == Some(second) {
        (2, both)
    } else {
        (reads(rest, 1), single)
    }
}

/// `rest` is at its end, or starts with a line feed, a quotation mark or
/// punctuation that this reader knows, and not with a unicode escape sequence.
pub open spec fn peek_token_known(rest: Seq<u32>) -> bool {
    match ahead(rest, 0) {
        None => true,
        Some(c) => {
            &&& (c == LINE_FEED || c == EXCLAMATION_MARK || c == QUOTATION_MARK || c == APOSTROPHE
                || c == NUMBER_SIGN || c == PERCENT_SIGN || c == AMPERSAND || c == LEFT_PARENTHESIS
                || c == RIGHT_PARENTHESIS || c == ASTERISK || c == PLUS_SIGN || c == COMMA || c
                == HYPHEN_MINUS || c == FULL_STOP || c == SOLIDUS || c == COLON || c == SEMICOLON
                || c == LESS_THAN_SIGN || c == EQUALS_SIGN || c == GREATER_THAN_SIGN || c
                == QUESTION_MARK || c == COMMERCIAL_AT || c == LEFT_SQUARE_BRACKET || c
                == REVERSE_SOLIDUS || c == RIGHT_SQUARE_BRACKET || c == CIRCUMFLEX_ACCENT || c
                == LEFT_CURLY_BRACKET || c == VERTICAL_LINE || c == RIGHT_CURLY_BRACKET)
            &&& !(c == REVERSE_SOLIDUS && ahead(rest, 1) == Some(LATIN_SMALL_LETTER_U))
        },
    }
}

/// Reading one token from `rest`: how many code points are read, and the token.
pub open spec fn spec_peek_match_token(rest: Seq<u32>) -> (int, TokenView) {
    match ahead(rest, 0) {
        None => peek_one(rest, TokenContentOf::EOF),
        Some(c) => if c == LINE_FEED {
            peek_one(rest, TokenContentOf::NewLine)
        } else if c == EXCLAMATION_MARK {
            peek_two(rest, EQUALS_SIGN, TokenContentOf::NotEq, TokenContentOf::Not)
        } else if c == QUOTATION_MARK || c == APOSTROPHE {
            spec_peek_string_literal(rest)
        } else if c == NUMBER_SIGN {
            if ahead(rest, 1) == Some(NUMBER_SIGN) {
                if ahead(rest, 2) == Some(NUMBER_SIGN) {
                    (3, TokenContentOf::Sharp3)
                } else {
                    (2, TokenContentOf::Unknown(number_sign_2()))
                }
            } else if ahead(rest, 1) == Some(LEFT_SQUARE_BRACKET) {
                (2, TokenContentOf::OpenSharpBracket)
            } else {
                (1, TokenContentOf::Sharp)
            }
        } else if c == PERCENT_SIGN {
            peek_one(rest, TokenContentOf::Percent)
        } else if c == AMPERSAND {
            peek_two(rest, AMPERSAND, TokenContentOf::And2, TokenContentOf::Unknown(encode(AMPERSAND)))
        } else if c == LEFT_PARENTHESIS {
            peek_one(rest, TokenContentOf::OpenParen)
        } else if c == RIGHT_PARENTHESIS {
            peek_one(rest, TokenContentOf::CloseParen)
        } else if c == ASTERISK {
            peek_one(rest, TokenContentOf::Asterisk)
        } else if c == PLUS_SIGN {
            peek_two(rest, EQUALS_SIGN, TokenContentOf::PlusEq, TokenContentOf::Plus)
        } else if c == COMMA {
            peek_one(rest, TokenContentOf::Comma)
        } else if c == HYPHEN_MINUS {
            peek_two(rest, EQUALS_SIGN, TokenContentOf::MinusEq, TokenContentOf::Minus)
        } else if c == FULL_STOP {
            peek_one(rest, TokenContentOf::Dot)
        } else if c == SOLIDUS {
            peek_one(rest, TokenContentOf::Slash)
        } else if c == COLON {
            peek_two(rest, COLON, TokenContentOf::Colon2, TokenContentOf::Colon)
        } else if c == SEMICOLON {
            peek_one(rest, TokenContentOf::SemiColon)
        } else if c == LESS_THAN_SIGN {
            if ahead(rest, 1) == Some(EQUALS_SIGN) {
                (2, TokenContentOf::LtEq)
            } else if ahead(rest, 1) == Some(COLON) {
                (2, TokenContentOf::Out)
            } else {
                (1, TokenContentOf::Lt)
            }
        } else if c == EQUALS_SIGN {
            if ahead(rest, 1) == Some(EQUALS_SIGN) {
                (2, TokenContentOf::Eq2)
            } else if ahead(rest, 1) == Some(GREATER_THAN_SIGN) {
                (2, TokenContentOf::Arrow)
            } else {
                (1, TokenContentOf::Eq)
            }
        } else if c == GREATER_THAN_SIGN {
            peek_two(rest, EQUALS_SIGN, TokenContentOf::GtEq, TokenContentOf::Gt)
        } else if c == QUESTION_MARK {
            peek_one(rest, TokenContentOf::Question)
        } else if c == COMMERCIAL_AT {
            peek_one(rest, TokenContentOf::At)
        } else if c == LEFT_SQUARE_BRACKET {
            peek_one(rest, TokenContentOf::OpenBracket)
        } else if c == REVERSE_SOLIDUS {
            peek_one(rest, TokenContentOf::BackSlash)
        } else if c == RIGHT_SQUARE_BRACKET {
            peek_one(rest, TokenContentOf::CloseBracket)
        } else if c == CIRCUMFLEX_ACCENT {
            peek_one(rest, TokenContentOf::Hat)
        } else if c == LEFT_CURLY_BRACKET {
            peek_one(rest, TokenContentOf::OpenBrace)
        } else if c == VERTICAL_LINE {
            peek_two(rest, VERTICAL_LINE, TokenContentOf::Or2, TokenContentOf::Or)
        } else {
            peek_one(rest, TokenContentOf::CloseBrace)
        },
    }
}

/// The code point `index` places ahead, as a number; `None` past the end.
fn peek_value(stream: &mut PeekableStream, index: usize) -> (r: Option<u32>)
    requires
        old(stream).wf(),
    ensures
        final(stream).wf(),
        final(stream).source() == old(stream).source(),
        final(stream).consumed() == old(stream).consumed(),
        final(stream).spec_pos() == old(stream).spec_pos(),
        r == ahead(old(stream).rest(), index as int),
{
    proof {
        stream.lemma_wf();
    }
    match stream.peek(index) {
        Some(c) => Some(c.as_u32()),
        None => None,
    }
}

/// Reads one code point, if there is one.
fn skip_one(stream: &mut PeekableStream)
    requires
        old(stream).wf(),
    ensures
        final(stream).wf(),
        final(stream).source() == old(stream).source(),
        final(stream).consumed() == old(stream).consumed() + reads(old(stream).rest(), 1),
{
    proof {
        stream.lemma_wf();
    }
    let _ = stream.next();
}

/// Reads a token of one code point.
fn peek_read_one(stream: &mut PeekableStream, t: TokenContent) -> (r: TokenContent)
    requires
        old(stream).wf(),
    ensures
        final(stream).wf(),
        final(stream).source() == old(stream).source(),
        (final(stream).consumed() - old(stream).consumed(), r@) == peek_one(old(stream).rest(), t@),
{
    skip_one(stream);
    t
}

/// Reads a token that may take a second code point: reads the first; then
/// `both`, reading the second too, if it is `second`, else `single`, leaving the
/// next code point unread.
fn peek_read_two(stream: &mut PeekableStream, second: u32, both: TokenContent, single: TokenContent) -> (r:
    TokenContent)
    requires
        old(stream).wf(),
    ensures
        final(stream).wf(),
        final(stream).source() == old(stream).source(),
        (final(stream).consumed() - old(stream).consumed(), r@) == peek_two(
            old(stream).rest(),
            second,
            both@,
            single@,
        ),
{
    let ghost rest = stream.rest();
    proof {
        stream.lemma_wf();
    }
    skip_one(stream);
    proof {
        stream.lemma_wf();
        if rest.len() > 1 {
            assert(stream.rest()[0] == rest[1]);
        }
    }
    let is_second = peek_value(stream, 0) == Some(second);
    if is_second {
        skip_one(stream);
        both
    } else {
        single
    }
}

/// Reads a string literal; the stream must start with a quotation mark or an
/// apostrophe.
pub fn read_string_literal(stream: &mut PeekableStream) -> (r: TokenContent)
    requires
        old(stream).wf(),
        starts_peek_string_literal(old(stream).rest()),
    ensures
        final(stream).wf(),
        final(stream).source() == old(stream).source(),
        (final(stream).consumed() - old(stream).consumed(), r@) == spec_peek_string_literal(
            old(stream).rest(),
        ),
{
    let ghost rest = stream.rest();
    let ghost k0 = stream.consumed();
    proof {
        stream.lemma_wf();
    }
    let mut value = EsString::new();
    let literal_mark = stream.next().unwrap();
    let mut escape = false;
    loop
        invariant
            stream.wf(),
            stream.source() == old(stream).source(),
            rest == old(stream).rest(),
            k0 == old(stream).consumed(),
            rest == stream.source().skip(k0),
            0 <= k0,
            k0 + 1 <= stream.consumed() <= stream.source().len(),
            literal_mark@ == rest[0],
            spec_peek_string_body(rest, stream.consumed() - k0, literal_mark@, escape, value@)
                == spec_peek_string_literal(rest),
        decreases stream.source().len() - stream.consumed(),
    {
        proof {
            stream.lemma_wf();
        }
        let ghost i = stream.consumed() - k0;
        let c = match stream.next() {
            Some(c) => c,
            None => {
                return TokenContentOf::IncompleteStringLiteral;
            },
        };
        proof {
            assert(rest[i] == c@);
        }
        if escape {
            value.push_code_point(c);
            escape = false;
        } else if c.as_u32() == REVERSE_SOLIDUS {
            escape = true;
        } else if c == literal_mark {
            proof {
                CodePoint::lemma_eq(c, literal_mark);
            }
            return TokenContentOf::StringLiteral(value);
        } else {
            proof {
                CodePoint::lemma_eq(c, literal_mark);
            }
            value.push_code_point(c);
        }
    }
}

/// Reads one token. The stream must be at its end, or start with a line feed, a
/// quotation mark or punctuation, and not with a unicode escape sequence.
pub fn match_token(stream: &mut PeekableStream) -> (r: TokenContent)
    requires
        old(stream).wf(),
        peek_token_known(old(stream).rest()),
    ensures
        final(stream).wf(),
        final(stream).source() == old(stream).source(),
        (final(stream).consumed() - old(stream).consumed(), r@) == spec_peek_match_token(
            old(stream).rest(),
        ),
{
    let ghost rest = stream.rest();
    proof {
        stream.lemma_wf();
    }
    let first = match stream.peek(0) {
        None => return peek_read_one(stream, TokenContentOf::EOF),
        Some(c) => c,
    };
    proof {
        stream.lemma_wf();
    }
    let v = first.as_u32();
    if v == LINE_FEED {
        peek_read_one(stream, TokenContentOf::NewLine)
    } else if v == EXCLAMATION_MARK {
        peek_read_two(stream, EQUALS_SIGN, TokenContentOf::NotEq, TokenContentOf::Not)
    } else if v == QUOTATION_MARK || v == APOSTROPHE {
        read_string_literal(stream)
    } else if v == NUMBER_SIGN {
        skip_one(stream);
        let second = peek_value(stream, 0);
        if second == Some(NUMBER_SIGN) {
            skip_one(stream);
            let third = peek_value(stream, 0);
            if third == Some(NUMBER_SIGN) {
                skip_one(stream);
                TokenContentOf::Sharp3
            } else {
                let mut text = EsString::new();
                text.push_code_point(first);
                text.push_code_point(first);
                proof {
                    assert(text@ =~= number_sign_2());
                }
                TokenContentOf::Unknown(text)
            }
        } else if second == Some(LEFT_SQUARE_BRACKET) {
            skip_one(stream);
            TokenContentOf::OpenSharpBracket
        } else {
            TokenContentOf::Sharp
        }
    } else if v == PERCENT_SIGN {
        peek_read_one(stream, TokenContentOf::Percent)
    } else if v == AMPERSAND {
        let mut text = EsString::new();
        text.push_code_point(first);
        proof {
            assert(text@ =~= encode(AMPERSAND));
        }
        peek_read_two(stream, AMPERSAND, TokenContentOf::And2, TokenContentOf::Unknown(text))
    } else if v == LEFT_PARENTHESIS {
        peek_read_one(stream, TokenContentOf::OpenParen)
    } else if v == RIGHT_PARENTHESIS {
        peek_read_one(stream, TokenContentOf::CloseParen)
    } else if v == ASTERISK {
        peek_read_one(stream, TokenContentOf::Asterisk)
    } else if v == PLUS_SIGN {
        peek_read_two(stream, EQUALS_SIGN, TokenContentOf::PlusEq, TokenContentOf::Plus)
    } else if v == COMMA {
        peek_read_one(stream, TokenContentOf::Comma)
    } else if v == HYPHEN_MINUS {
        peek_read_two(stream, EQUALS_SIGN, TokenContentOf::MinusEq, TokenContentOf::Minus)
    } else if v == FULL_STOP {
        peek_read_one(stream, TokenContentOf::Dot)
    } else if v == SOLIDUS {
        peek_read_one(stream, TokenContentOf::Slash)
    } else if v == COLON {
        peek_read_two(stream, COLON, TokenContentOf::Colon2, TokenContentOf::Colon)
    } else if v == SEMICOLON {
        peek_read_one(stream, TokenContentOf::SemiColon)
    } else if v == LESS_THAN_SIGN {
        skip_one(stream);
        let second = peek_value(stream, 0);
        if second == Some(EQUALS_SIGN) {
            skip_one(stream);
            TokenContentOf::LtEq
        } else if second == Some(COLON) {
            skip_one(stream);
            TokenContentOf::Out
        } else {
            TokenContentOf::Lt
        }
    } else if v == EQUALS_SIGN {
        skip_one(stream);
        let second = peek_value(stream, 0);
        if second == Some(EQUALS_SIGN) {
            skip_one(stream);
            TokenContentOf::Eq2
        } else if second == Some(GREATER_THAN_SIGN) {
            skip_one(stream);
            TokenContentOf::Arrow
        } else {
            TokenContentOf::Eq
        }
    } else if v == GREATER_THAN_SIGN {
        peek_read_two(stream, EQUALS_SIGN, TokenContentOf::GtEq, TokenContentOf::Gt)
    } else if v == QUESTION_MARK {
        peek_read_one(stream, TokenContentOf::Question)
    } else if v == COMMERCIAL_AT {
        peek_read_one(stream, TokenContentOf::At)
    } else if v == LEFT_SQUARE_BRACKET {
        peek_read_one(stream, TokenContentOf::OpenBracket)
    } else if v == REVERSE_SOLIDUS {
        peek_read_one(stream, TokenContentOf::BackSlash)
    } else if v == RIGHT_SQUARE_BRACKET {
        peek_read_one(stream, TokenContentOf::CloseBracket)
    } else if v == CIRCUMFLEX_ACCENT {
        peek_read_one(stream, TokenContentOf::Hat)
    } else if v == LEFT_CURLY_BRACKET {
        peek_read_one(stream, TokenContentOf::OpenBrace)
    } else if v == VERTICAL_LINE {
        peek_read_two(stream, VERTICAL_LINE, TokenContentOf::Or2, TokenContentOf::Or)
    } else {
        peek_read_one(stream, TokenContentOf::CloseBrace)
    }
}

} // verus!
