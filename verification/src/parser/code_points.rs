//! The code points that the lexer looks for, and the classes of code points it
//! tells apart.
use vstd::prelude::*;

use crate::string::code_point::CodePoint;

verus! {

/// `\n`
pub const LINE_FEED: u32 = 0x0A;

/// `\r`
pub const CARRIAGE_RETURN: u32 = 0x0D;

/// `\t`
pub const CHARACTER_TABULATION: u32 = 0x09;

/// ` `
pub const SPACE: u32 = 0x20;

/// `!`
pub const EXCLAMATION_MARK: u32 = 0x21;

/// `"`
pub const QUOTATION_MARK: u32 = 0x22;

/// `#`
pub const NUMBER_SIGN: u32 = 0x23;

/// `$`
pub const DOLLAR_SIGN: u32 = 0x24;

/// `%`
pub const PERCENT_SIGN: u32 = 0x25;

/// `&`
pub const AMPERSAND: u32 = 0x26;

/// `'`
pub const APOSTROPHE: u32 = 0x27;

/// `(`
pub const LEFT_PARENTHESIS: u32 = 0x28;

/// `)`
pub const RIGHT_PARENTHESIS: u32 = 0x29;

/// `*`
pub const ASTERISK: u32 = 0x2A;

/// `+`
pub const PLUS_SIGN: u32 = 0x2B;

/// `,`
pub const COMMA: u32 = 0x2C;

/// `-`
pub const HYPHEN_MINUS: u32 = 0x2D;

/// `.`
pub const FULL_STOP: u32 = 0x2E;

/// `/`
pub const SOLIDUS: u32 = 0x2F;

/// `0`
pub const DIGIT_ZERO: u32 = 0x30;

/// `9`
pub const DIGIT_NINE: u32 = 0x39;

/// `:`
pub const COLON: u32 = 0x3A;

/// `;`
pub const SEMICOLON: u32 = 0x3B;

/// `<`
pub const LESS_THAN_SIGN: u32 = 0x3C;

/// `=`
pub const EQUALS_SIGN: u32 = 0x3D;

/// `>`
pub const GREATER_THAN_SIGN: u32 = 0x3E;

/// `?`
pub const QUESTION_MARK: u32 = 0x3F;

/// `@`
pub const COMMERCIAL_AT: u32 = 0x40;

/// `A`
pub const LATIN_CAPITAL_LETTER_A: u32 = 0x41;

/// `F`
pub const LATIN_CAPITAL_LETTER_F: u32 = 0x46;

/// `Z`
pub const LATIN_CAPITAL_LETTER_Z: u32 = 0x5A;

/// `[`
pub const LEFT_SQUARE_BRACKET: u32 = 0x5B;

/// `\\`
pub const REVERSE_SOLIDUS: u32 = 0x5C;

/// `]`
pub const RIGHT_SQUARE_BRACKET: u32 = 0x5D;

/// `^`
pub const CIRCUMFLEX_ACCENT: u32 = 0x5E;

/// `_`
pub const LOW_LINE: u32 = 0x5F;

/// the grave accent
pub const GRAVE_ACCENT: u32 = 0x60;

/// `a`
pub const LATIN_SMALL_LETTER_A: u32 = 0x61;

/// `f`
pub const LATIN_SMALL_LETTER_F: u32 = 0x66;

/// `u`
pub const LATIN_SMALL_LETTER_U: u32 = 0x75;

/// `z`
pub const LATIN_SMALL_LETTER_Z: u32 = 0x7A;

/// `{`
pub const LEFT_CURLY_BRACKET: u32 = 0x7B;

/// `|`
pub const VERTICAL_LINE: u32 = 0x7C;

/// `}`
pub const RIGHT_CURLY_BRACKET: u32 = 0x7D;

/// A space or a tab.
pub open spec fn spec_is_space(c: u32) -> bool {
    c == SPACE || c == CHARACTER_TABULATION
}

/// CR or LF.
pub open spec fn spec_is_line_break(c: u32) -> bool {
    c == CARRIAGE_RETURN || c == LINE_FEED
}

/// A space, a tab, CR or LF.
pub open spec fn spec_is_whitespace(c: u32) -> bool {
    spec_is_space(c) || spec_is_line_break(c)
}

/// An ASCII digit, 0 to 9.
pub open spec fn spec_is_digit(c: u32) -> bool {
    DIGIT_ZERO <= c <= DIGIT_NINE
}

/// An ASCII letter.
pub open spec fn spec_is_ascii_letter(c: u32) -> bool {
    (LATIN_CAPITAL_LETTER_A <= c <= LATIN_CAPITAL_LETTER_Z) || (LATIN_SMALL_LETTER_A <= c
        <= LATIN_SMALL_LETTER_Z)
}

/// An ASCII letter or a low line.
pub open spec fn spec_is_identifier_start(c: u32) -> bool {
    spec_is_ascii_letter(c) || c == LOW_LINE
}

/// An ASCII letter, a digit or a low line.
pub open spec fn spec_is_identifier_part(c: u32) -> bool {
    spec_is_ascii_letter(c) || spec_is_digit(c) || c == LOW_LINE
}

/// A hexadecimal digit: 0 to 9, A to F, a to f.
pub open spec fn spec_is_hex_digit(c: u32) -> bool {
    spec_is_digit(c) || (LATIN_CAPITAL_LETTER_A <= c <= LATIN_CAPITAL_LETTER_F) || (
    LATIN_SMALL_LETTER_A <= c <= LATIN_SMALL_LETTER_F)
}

/// Whether `c` is a space or a tab.
pub fn is_space_char(c: CodePoint) -> (r: bool)
    ensures
        r == spec_is_space(c@),
{
    let v = c.as_u32();
    v == SPACE || v == CHARACTER_TABULATION
}

/// Whether `c` is CR or LF.
pub fn is_line_break_char(c: CodePoint) -> (r: bool)
    ensures
        r == spec_is_line_break(c@),
{
    let v = c.as_u32();
    v == CARRIAGE_RETURN || v == LINE_FEED
}

/// Whether `c` is a space, a tab, CR or LF.
pub fn is_whitespace_char(c: CodePoint) -> (r: bool)
    ensures
        r == spec_is_whitespace(c@),
{
    is_space_char(c) || is_line_break_char(c)
}

/// Whether `c` is an ASCII digit.
pub fn is_digit(c: CodePoint) -> (r: bool)
    ensures
        r == spec_is_digit(c@),
{
    let v = c.as_u32();
    DIGIT_ZERO <= v && v <= DIGIT_NINE
}

/// Whether `c` is an ASCII letter or a low line.
pub fn is_identifier_start(c: CodePoint) -> (r: bool)
    ensures
        r == spec_is_identifier_start(c@),
{
    let v = c.as_u32();
    (LATIN_CAPITAL_LETTER_A <= v && v <= LATIN_CAPITAL_LETTER_Z) || (LATIN_SMALL_LETTER_A <= v
        && v <= LATIN_SMALL_LETTER_Z) || v == LOW_LINE
}

/// Whether `c` is an ASCII letter, a digit or a low line.
pub fn is_identifier_part(c: CodePoint) -> (r: bool)
    ensures
        r == spec_is_identifier_part(c@),
{
    let v = c.as_u32();
    (LATIN_CAPITAL_LETTER_A <= v && v <= LATIN_CAPITAL_LETTER_Z) || (LATIN_SMALL_LETTER_A <= v
        && v <= LATIN_SMALL_LETTER_Z) || (DIGIT_ZERO <= v && v <= DIGIT_NINE) || v == LOW_LINE
}

/// Whether `c` is a hexadecimal digit.
pub fn is_hex_digit(c: CodePoint) -> (r: bool)
    ensures
        r == spec_is_hex_digit(c@),
{
    let v = c.as_u32();
    (DIGIT_ZERO <= v && v <= DIGIT_NINE) || (LATIN_CAPITAL_LETTER_A <= v && v
        <= LATIN_CAPITAL_LETTER_F) || (LATIN_SMALL_LETTER_A <= v && v <= LATIN_SMALL_LETTER_F)
}

} // verus!
