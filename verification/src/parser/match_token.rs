//! Reading one token.
use vstd::prelude::*;

use crate::char_stream::{lemma_next_plain, lemma_next_progress, spec_char, spec_char_nth, spec_next, CharStream, StreamState};
use crate::parser::code_points::{
    AMPERSAND, APOSTROPHE, ASTERISK, CIRCUMFLEX_ACCENT, COLON, COMMA, COMMERCIAL_AT, EQUALS_SIGN,
    EXCLAMATION_MARK, FULL_STOP, GREATER_THAN_SIGN, HYPHEN_MINUS, LATIN_SMALL_LETTER_U,
    LEFT_CURLY_BRACKET, LEFT_PARENTHESIS, LEFT_SQUARE_BRACKET, LESS_THAN_SIGN, LINE_FEED,
    NUMBER_SIGN, PERCENT_SIGN, PLUS_SIGN, QUESTION_MARK, QUOTATION_MARK, REVERSE_SOLIDUS,
    RIGHT_CURLY_BRACKET, RIGHT_PARENTHESIS, RIGHT_SQUARE_BRACKET, SEMICOLON, SOLIDUS,
    VERTICAL_LINE,
};
use crate::parser::identifier_name::{
    lemma_identifier_name, spec_try_read_identifier_name, try_read_identifier_name,
};
use crate::parser::number_literal::{
    lemma_number_literal, spec_try_read_number_literal, try_read_number_literal,
};
use crate::parser::string_literal::{
    lemma_string_body_kind, read_string_literal, spec_read_string_literal,
};
use crate::parser::token::{TokenContent, TokenContentOf, TokenView};
use crate::string::code_point::CodePoint;
use crate::string::es_string::EsString;
use crate::unicode::{code_point_at, encode, lemma_surrogate_pair_value, pair_starts_at};

verus! {

/// A token of one code point: read it.
pub open spec fn spec_one(s: StreamState, t: TokenView) -> (StreamState, TokenView) {
    (spec_next(s).0, t)
}

/// A token that may take a second code point: read the first; then `both`, with
/// the second read too, if the next code point is `second`, else `single`, with
/// the next code point left unread.
pub open spec fn spec_two(s: StreamState, second: u32, both: TokenView, single: TokenView) -> (
    StreamState,
    TokenView,
) {
    let s1 = spec_next(s).0;
    if spec_char(s1) == Some(second) {
        (spec_next(s1).0, both)
    } else {
        (s1, single)
    }
}

/// The text of `##`.
pub open spec fn number_sign_2() -> Seq<u16> {
    encode(NUMBER_SIGN) + encode(NUMBER_SIGN)
}

/// Reading a token that starts with a code point that is no punctuation the lexer
/// knows: a number literal, else an identifier name, else that code point alone,
/// as an unknown token that is not read.
pub open spec fn spec_match_other(s: StreamState, c: u32) -> (StreamState, TokenView) {
    let (s1, number) = spec_try_read_number_literal(s);
    if number is Some {
        (s1, number.unwrap())
    } else {
        let (s2, name) = spec_try_read_identifier_name(s1);
        if name is Some {
            (s2, name.unwrap())
        } else {
            (s2, TokenContentOf::Unknown(encode(c)))
        }
    }
}

/// Reading one token: the state after it, and the token.
pub open spec fn spec_match_token(s: StreamState) -> (StreamState, TokenView) {
    match spec_char(s) {
        None => spec_one(s, TokenContentOf::EOF),
        Some(c) => if c == LINE_FEED {
            spec_one(s, TokenContentOf::NewLine)
        } else if c == EXCLAMATION_MARK {
            spec_two(s, EQUALS_SIGN, TokenContentOf::NotEq, TokenContentOf::Not)
        } else if c == QUOTATION_MARK || c == APOSTROPHE {
            spec_read_string_literal(s)
        } else if c == NUMBER_SIGN {
            let s1 = spec_next(s).0;
            if spec_char(s1) == Some(NUMBER_SIGN) {
                let s2 = spec_next(s1).0;
                if spec_char(s2) == Some(NUMBER_SIGN) {
                    (spec_next(s2).0, TokenContentOf::Sharp3)
                } else {
                    (s2, TokenContentOf::Unknown(number_sign_2()))
                }
            } else if spec_char(s1) == Some(LEFT_SQUARE_BRACKET) {
                (spec_next(s1).0, TokenContentOf::OpenSharpBracket)
            } else {
                (s1, TokenContentOf::Sharp)
            }
        } else if c == PERCENT_SIGN {
            spec_one(s, TokenContentOf::Percent)
        } else if c == AMPERSAND {
            spec_two(s, AMPERSAND, TokenContentOf::And2, TokenContentOf::Unknown(encode(AMPERSAND)))
        } else if c == LEFT_PARENTHESIS {
            spec_one(s, TokenContentOf::OpenParen)
        } else if c == RIGHT_PARENTHESIS {
            spec_one(s, TokenContentOf::CloseParen)
        } else if c == ASTERISK {
            spec_one(s, TokenContentOf::Asterisk)
        } else if c == PLUS_SIGN {
            spec_two(s, EQUALS_SIGN, TokenContentOf::PlusEq, TokenContentOf::Plus)
        } else if c == COMMA {
            spec_one(s, TokenContentOf::Comma)
        } else if c == HYPHEN_MINUS {
            spec_two(s, EQUALS_SIGN, TokenContentOf::MinusEq, TokenContentOf::Minus)
        } else if c == FULL_STOP {
            spec_one(s, TokenContentOf::Dot)
        } else if c == SOLIDUS {
            spec_one(s, TokenContentOf::Slash)
        } else if c == COLON {
            spec_two(s, COLON, TokenContentOf::Colon2, TokenContentOf::Colon)
        } else if c == SEMICOLON {
            spec_one(s, TokenContentOf::SemiColon)
        } else if c == LESS_THAN_SIGN {
            let s1 = spec_next(s).0;
            if spec_char(s1) == Some(EQUALS_SIGN) {
                (spec_next(s1).0, TokenContentOf::LtEq)
            } else if spec_char(s1) == Some(COLON) {
                (spec_next(s1).0, TokenContentOf::Out)
            } else {
                (s1, TokenContentOf::Lt)
            }
        } else if c == EQUALS_SIGN {
            let s1 = spec_next(s).0;
            if spec_char(s1) == Some(EQUALS_SIGN) {
                (spec_next(s1).0, TokenContentOf::Eq2)
            } else if spec_char(s1) == Some(GREATER_THAN_SIGN) {
                (spec_next(s1).0, TokenContentOf::Arrow)
            } else {
                (s1, TokenContentOf::Eq)
            }
        } else if c == GREATER_THAN_SIGN {
            spec_two(s, EQUALS_SIGN, TokenContentOf::GtEq, TokenContentOf::Gt)
        } else if c == QUESTION_MARK {
            spec_one(s, TokenContentOf::Question)
        } else if c == COMMERCIAL_AT {
            spec_one(s, TokenContentOf::At)
        } else if c == LEFT_SQUARE_BRACKET {
            spec_one(s, TokenContentOf::OpenBracket)
        } else if c == REVERSE_SOLIDUS {
            spec_one(s, TokenContentOf::BackSlash)
        } else if c == RIGHT_SQUARE_BRACKET {
            spec_one(s, TokenContentOf::CloseBracket)
        } else if c == CIRCUMFLEX_ACCENT {
            spec_one(s, TokenContentOf::Hat)
        } else if c == LEFT_CURLY_BRACKET {
            spec_one(s, TokenContentOf::OpenBrace)
        } else if c == VERTICAL_LINE {
            spec_two(s, VERTICAL_LINE, TokenContentOf::Or2, TokenContentOf::Or)
        } else if c == RIGHT_CURLY_BRACKET {
            spec_one(s, TokenContentOf::CloseBrace)
        } else {
            spec_match_other(s, c)
        },
    }
}

/// The stream is at a reverse solidus followed by `u`: the start of a unicode
/// escape sequence, which no token can start with yet.
pub open spec fn at_unicode_escape(s: StreamState) -> bool {
    spec_char(s) == Some(REVERSE_SOLIDUS) && spec_char_nth(s, 1) == Some(LATIN_SMALL_LETTER_U)
}

/// Reading a token keeps the state well-formed.
pub proof fn lemma_match_token_wf(s: StreamState)
    requires
        s.wf(),
    ensures
        spec_match_token(s).0.wf(),
        spec_match_token(s).0.units == s.units,
{
    lemma_next_progress(s);
    let s1 = spec_next(s).0;
    lemma_next_progress(s1);
    let s2 = spec_next(s1).0;
    lemma_next_progress(s2);
    if spec_char(s) == Some(QUOTATION_MARK) || spec_char(s) == Some(APOSTROPHE) {
        let (s1, mark) = spec_next(s);
        lemma_string_body_kind(s1, mark.unwrap(), false, Seq::empty());
    }
    lemma_number_literal(s);
    lemma_identifier_name(spec_try_read_number_literal(s).0);
}

/// Only LF reads as a line end token.
pub proof fn lemma_new_line_token(s: StreamState)
    requires
        s.wf(),
        spec_match_token(s).1 is NewLine,
    ensures
        spec_char(s) == Some(LINE_FEED),
{
    lemma_next_progress(s);
    if spec_char(s) == Some(QUOTATION_MARK) || spec_char(s) == Some(APOSTROPHE) {
        let (s1, mark) = spec_next(s);
        lemma_next_progress(s1);
        lemma_string_body_kind(s1, mark.unwrap(), false, Seq::empty());
    }
    lemma_number_literal(s);
    lemma_identifier_name(spec_try_read_number_literal(s).0);
}

/// The token that punctuation of one code unit `a` spells, where nothing
/// longer is spelt: `&` alone is no operator and gives an unknown token.
pub open spec fn one_unit_token(a: u16) -> Option<TokenView> {
    let a = a as u32;
    if a == EXCLAMATION_MARK {
        Some(TokenContentOf::Not)
    } else if a == NUMBER_SIGN {
        Some(TokenContentOf::Sharp)
    } else if a == PERCENT_SIGN {
        Some(TokenContentOf::Percent)
    } else if a == AMPERSAND {
        Some(TokenContentOf::Unknown(seq![0x26u16]))
    } else if a == LEFT_PARENTHESIS {
        Some(TokenContentOf::OpenParen)
    } else if a == RIGHT_PARENTHESIS {
        Some(TokenContentOf::CloseParen)
    } else if a == ASTERISK {
        Some(TokenContentOf::Asterisk)
    } else if a == PLUS_SIGN {
        Some(TokenContentOf::Plus)
    } else if a == COMMA {
        Some(TokenContentOf::Comma)
    } else if a == HYPHEN_MINUS {
        Some(TokenContentOf::Minus)
    } else if a == FULL_STOP {
        Some(TokenContentOf::Dot)
    } else if a == SOLIDUS {
        Some(TokenContentOf::Slash)
    } else if a == COLON {
        Some(TokenContentOf::Colon)
    } else if a == SEMICOLON {
        Some(TokenContentOf::SemiColon)
    } else if a == LESS_THAN_SIGN {
        Some(TokenContentOf::Lt)
    } else if a == EQUALS_SIGN {
        Some(TokenContentOf::Eq)
    } else if a == GREATER_THAN_SIGN {
        Some(TokenContentOf::Gt)
    } else if a == QUESTION_MARK {
        Some(TokenContentOf::Question)
    } else if a == COMMERCIAL_AT {
        Some(TokenContentOf::At)
    } else if a == LEFT_SQUARE_BRACKET {
        Some(TokenContentOf::OpenBracket)
    } else if a == REVERSE_SOLIDUS {
        Some(TokenContentOf::BackSlash)
    } else if a == RIGHT_SQUARE_BRACKET {
        Some(TokenContentOf::CloseBracket)
    } else if a == CIRCUMFLEX_ACCENT {
        Some(TokenContentOf::Hat)
    } else if a == LEFT_CURLY_BRACKET {
        Some(TokenContentOf::OpenBrace)
    } else if a == VERTICAL_LINE {
        Some(TokenContentOf::Or)
    } else if a == RIGHT_CURLY_BRACKET {
        Some(TokenContentOf::CloseBrace)
    } else {
        None
    }
}

/// The token that punctuation of two code units `a`, `b` spells: `!=`, `#[`,
/// `&&`, `+=`, `-=`, `::`, `<=`, `<:`, `==`, `=>`, `>=` or `||`.
pub open spec fn two_unit_token(a: u16, b: u16) -> Option<TokenView> {
    let (a, b) = (a as u32, b as u32);
    if a == EXCLAMATION_MARK && b == EQUALS_SIGN {
        Some(TokenContentOf::NotEq)
    } else if a == NUMBER_SIGN && b == LEFT_SQUARE_BRACKET {
        Some(TokenContentOf::OpenSharpBracket)
    } else if a == AMPERSAND && b == AMPERSAND {
        Some(TokenContentOf::And2)
    } else if a == PLUS_SIGN && b == EQUALS_SIGN {
        Some(TokenContentOf::PlusEq)
    } else if a == HYPHEN_MINUS && b == EQUALS_SIGN {
        Some(TokenContentOf::MinusEq)
    } else if a == COLON && b == COLON {
        Some(TokenContentOf::Colon2)
    } else if a == LESS_THAN_SIGN && b == EQUALS_SIGN {
        Some(TokenContentOf::LtEq)
    } else if a == LESS_THAN_SIGN && b == COLON {
        Some(TokenContentOf::Out)
    } else if a == EQUALS_SIGN && b == EQUALS_SIGN {
        Some(TokenContentOf::Eq2)
    } else if a == EQUALS_SIGN && b == GREATER_THAN_SIGN {
        Some(TokenContentOf::Arrow)
    } else if a == GREATER_THAN_SIGN && b == EQUALS_SIGN {
        Some(TokenContentOf::GtEq)
    } else if a == VERTICAL_LINE && b == VERTICAL_LINE {
        Some(TokenContentOf::Or2)
    } else {
        None
    }
}

/// The state `n` code units further on the same line.
pub open spec fn advance(s: StreamState, n: int) -> StreamState {
    StreamState { column: s.column + n, ..s }
}

/// At an ASCII code unit that is no line end, the current code point is that
/// unit, and reading it moves one column on.
proof fn lemma_ascii_step(s: StreamState)
    requires
        s.wf(),
        s.index() < s.units.len(),
        s.units[s.index()] < 0x80u16,
        s.units[s.index()] != 0x0Au16,
        s.units[s.index()] != 0x0Du16,
    ensures
        spec_char(s) == Some(s.units[s.index()] as u32),
        spec_next(s) == (advance(s, 1), Some(s.units[s.index()] as u32)),
        advance(s, 1).wf(),
{
    assert(!pair_starts_at(s.units, s.index()));
}

/// The code point at index `i` is the code unit there, or one above 0xFFFF.
proof fn lemma_code_point_at_unit(units: Seq<u16>, i: int)
    requires
        0 <= i < units.len(),
    ensures
        code_point_at(units, i) == units[i] as u32 || code_point_at(units, i) >= 0x10000,
{
    if pair_starts_at(units, i) {
        lemma_surrogate_pair_value(units[i], units[i + 1]);
    }
}

/// Punctuation of two code units reads as its token, and reading stops right
/// after it: the next token starts two code units further on the same line.
pub proof fn law_two_unit_punctuation(s: StreamState)
    requires
        s.wf(),
        s.index() + 1 < s.units.len(),
        two_unit_token(s.units[s.index()], s.units[s.index() + 1]) is Some,
    ensures
        spec_match_token(s) == (advance(s, 2), two_unit_token(
            s.units[s.index()],
            s.units[s.index() + 1],
        ).unwrap()),
{
    let i = s.index();
    lemma_ascii_step(s);
    let s1 = advance(s, 1);
    lemma_ascii_step(s1);
}

/// Punctuation of one code unit that starts no longer spelling reads as its
/// token, and reading stops right after it: the code point after it is left for
/// the next token, one code unit further on the same line.
pub proof fn law_one_unit_punctuation(s: StreamState)
    requires
        s.wf(),
        s.index() < s.units.len(),
        one_unit_token(s.units[s.index()]) is Some,
        s.index() + 1 < s.units.len() ==> two_unit_token(s.units[s.index()], s.units[s.index() + 1])
            is None && !(s.units[s.index()] == 0x23u16 && s.units[s.index() + 1] == 0x23u16),
    ensures
        spec_match_token(s) == (advance(s, 1), one_unit_token(s.units[s.index()]).unwrap()),
{
    let i = s.index();
    lemma_ascii_step(s);
    if i + 1 < s.units.len() {
        lemma_code_point_at_unit(s.units, i + 1);
    }
    assert(encode(AMPERSAND) == seq![0x26u16]);
}

/// Three number signs read as `###`; two that no third follows read as an
/// unknown token `##` and leave the code point after them unread.
pub proof fn law_number_signs(s: StreamState)
    requires
        s.wf(),
        s.index() + 1 < s.units.len(),
        s.units[s.index()] == 0x23u16,
        s.units[s.index() + 1] == 0x23u16,
    ensures
        s.index() + 2 < s.units.len() && s.units[s.index() + 2] == 0x23u16 ==> spec_match_token(s)
            == (advance(s, 3), TokenContentOf::<Seq<u16>>::Sharp3),
        !(s.index() + 2 < s.units.len() && s.units[s.index() + 2] == 0x23u16) ==> spec_match_token(s)
            == (advance(s, 2), TokenContentOf::<Seq<u16>>::Unknown(seq![0x23u16, 0x23u16])),
{
    let i = s.index();
    lemma_ascii_step(s);
    lemma_ascii_step(advance(s, 1));
    if i + 2 < s.units.len() {
        lemma_code_point_at_unit(s.units, i + 2);
        if s.units[i + 2] == 0x23u16 {
            lemma_ascii_step(advance(s, 2));
        }
    }
    assert(number_sign_2() == seq![0x23u16, 0x23u16]);
}

/// Reads a token of one code point.
fn read_one(stream: &mut CharStream<'_>, t: TokenContent) -> (r: TokenContent)
    ensures
        (final(stream).state(), r@) == spec_one(old(stream).state(), t@),
{
    stream.next();
    t
}

/// Reads a token that may take a second code point: reads the first; then
/// `both`, reading the second too, if the next code point is `second`, else
/// `single`, leaving the next code point unread.
fn read_two(stream: &mut CharStream<'_>, second: u32, both: TokenContent, single: TokenContent) -> (r:
    TokenContent)
    ensures
        (final(stream).state(), r@) == spec_two(old(stream).state(), second, both@, single@),
{
    stream.next();
    let is_second = match stream.char() {
        Some(c) => c.as_u32() == second,
        None => false,
    };
    if is_second {
        stream.next();
        both
    } else {
        single
    }
}

/// Reads one token. The stream must start with a token, not with a space or a
/// comment, and not with a unicode escape sequence.
pub fn match_token(stream: &mut CharStream<'_>) -> (r: TokenContent)
    requires
        !at_unicode_escape(old(stream).state()),
    ensures
        (final(stream).state(), r@) == spec_match_token(old(stream).state()),
{
    let c = match stream.char() {
        None => return read_one(stream, TokenContentOf::EOF),
        Some(c) => c,
    };
    let v = c.as_u32();
    if v == LINE_FEED {
        read_one(stream, TokenContentOf::NewLine)
    } else if v == EXCLAMATION_MARK {
        read_two(stream, EQUALS_SIGN, TokenContentOf::NotEq, TokenContentOf::Not)
    } else if v == QUOTATION_MARK || v == APOSTROPHE {
        read_string_literal(stream)
    } else if v == NUMBER_SIGN {
        stream.next();
        let second = match stream.char() {
            Some(c) => c.as_u32(),
            None => 0,
        };
        if second == NUMBER_SIGN {
            stream.next();
            let third = match stream.char() {
                Some(c) => c.as_u32() == NUMBER_SIGN,
                None => false,
            };
            if third {
                stream.next();
                TokenContentOf::Sharp3
            } else {
                let mut text = EsString::new();
                text.push_code_point(c);
                text.push_code_point(c);
                proof {
                    assert(text@ =~= number_sign_2());
                }
                TokenContentOf::Unknown(text)
            }
        } else if second == LEFT_SQUARE_BRACKET {
            stream.next();
            TokenContentOf::OpenSharpBracket
        } else {
            TokenContentOf::Sharp
        }
    } else if v == PERCENT_SIGN {
        read_one(stream, TokenContentOf::Percent)
    } else if v == AMPERSAND {
        let mut text = EsString::new();
        text.push_code_point(c);
        proof {
            assert(text@ =~= encode(AMPERSAND));
        }
        read_two(stream, AMPERSAND, TokenContentOf::And2, TokenContentOf::Unknown(text))
    } else if v == LEFT_PARENTHESIS {
        read_one(stream, TokenContentOf::OpenParen)
    } else if v == RIGHT_PARENTHESIS {
        read_one(stream, TokenContentOf::CloseParen)
    } else if v == ASTERISK {
        read_one(stream, TokenContentOf::Asterisk)
    } else if v == PLUS_SIGN {
        read_two(stream, EQUALS_SIGN, TokenContentOf::PlusEq, TokenContentOf::Plus)
    } else if v == COMMA {
        read_one(stream, TokenContentOf::Comma)
    } else if v == HYPHEN_MINUS {
        read_two(stream, EQUALS_SIGN, TokenContentOf::MinusEq, TokenContentOf::Minus)
    } else if v == FULL_STOP {
        read_one(stream, TokenContentOf::Dot)
    } else if v == SOLIDUS {
        read_one(stream, TokenContentOf::Slash)
    } else if v == COLON {
        read_two(stream, COLON, TokenContentOf::Colon2, TokenContentOf::Colon)
    } else if v == SEMICOLON {
        read_one(stream, TokenContentOf::SemiColon)
    } else if v == LESS_THAN_SIGN {
        stream.next();
        let second = match stream.char() {
            Some(c) => c.as_u32(),
            None => 0,
        };
        if second == EQUALS_SIGN {
            stream.next();
            TokenContentOf::LtEq
        } else if second == COLON {
            stream.next();
            TokenContentOf::Out
        } else {
            TokenContentOf::Lt
        }
    } else if v == EQUALS_SIGN {
        stream.next();
        let second = match stream.char() {
            Some(c) => c.as_u32(),
            None => 0,
        };
        if second == EQUALS_SIGN {
            stream.next();
            TokenContentOf::Eq2
        } else if second == GREATER_THAN_SIGN {
            stream.next();
            TokenContentOf::Arrow
        } else {
            TokenContentOf::Eq
        }
    } else if v == GREATER_THAN_SIGN {
        read_two(stream, EQUALS_SIGN, TokenContentOf::GtEq, TokenContentOf::Gt)
    } else if v == QUESTION_MARK {
        read_one(stream, TokenContentOf::Question)
    } else if v == COMMERCIAL_AT {
        read_one(stream, TokenContentOf::At)
    } else if v == LEFT_SQUARE_BRACKET {
        read_one(stream, TokenContentOf::OpenBracket)
    } else if v == REVERSE_SOLIDUS {
        read_one(stream, TokenContentOf::BackSlash)
    } else if v == RIGHT_SQUARE_BRACKET {
        read_one(stream, TokenContentOf::CloseBracket)
    } else if v == CIRCUMFLEX_ACCENT {
        read_one(stream, TokenContentOf::Hat)
    } else if v == LEFT_CURLY_BRACKET {
        read_one(stream, TokenContentOf::OpenBrace)
    } else if v == VERTICAL_LINE {
        read_two(stream, VERTICAL_LINE, TokenContentOf::Or2, TokenContentOf::Or)
    } else if v == RIGHT_CURLY_BRACKET {
        read_one(stream, TokenContentOf::CloseBrace)
    } else {
        if let Some(digit_token) = try_read_number_literal(stream) {
            return digit_token;
        }
        if let Some(word_token) = try_read_identifier_name(stream) {
            return word_token;
        }
        let mut text = EsString::new();
        text.push_code_point(c);
        TokenContentOf::Unknown(text)
    }
}

} // verus!
