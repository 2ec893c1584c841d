use std::ops::Bound;

use maiscript::char_stream::CharStream;
use maiscript::parser::code_points::{
    is_digit, is_hex_digit, is_identifier_part, is_identifier_start, is_line_break_char,
    is_space_char, is_whitespace_char,
};
use maiscript::parser::error::AiScriptSyntaxErrorSource;
use maiscript::parser::identifier_name::{read_identifier_name_string, try_read_identifier_name};
use maiscript::parser::lexer::Lexer;
use maiscript::parser::match_token::match_token;
use maiscript::parser::peekable_stream::{create_char_stream, PeekableStream};
use maiscript::parser::pos_stream::PosStream;
use maiscript::parser::token::TokenContent;
use maiscript::string::{CodePoint, CodeUnitCount, EsStr, EsString};
use maiscript::syntax;
use maiscript::syntax::{Position, Range};
use maiscript::utf16;
use maiscript::utf16::{
    BmpChar, CodeUnit, DecodedCodeUnit, LeadingSurrogateChar, TrailingSurrogateChar, Utf16Char,
};

fn units(s: &str) -> Vec<u16> {
    s.encode_utf16().collect()
}

fn code_points(s: &str) -> Vec<CodePoint> {
    s.chars().map(CodePoint::from_char).collect()
}

// ---------------------------------------------------------------------------
// Laws, on concrete values

#[test]
fn decoding_then_encoding_gives_back_the_code_units() {
    let source: Vec<u16> = vec![0x61, 0xD83D, 0xDE00, 0xDC00, 0x62, 0xD800];
    let decoded = CodePoint::decode_utf16(source.clone()).collect_vec();
    assert_eq!(decoded.len(), 5);
    let encoded = EsString::from_code_points(decoded);
    assert_eq!(encoded.as_es_str().as_u16s(), &source[..]);
}

#[test]
fn encoding_then_decoding_gives_back_the_code_points() {
    let cps = vec![
        CodePoint::from_char('a'),
        CodePoint::from_u32(0x1F600).unwrap(),
        CodePoint::from_u16(0xDC00),
        CodePoint::from_u16(0xD800),
        CodePoint::from_char('z'),
    ];
    let encoded = EsString::from_code_points(cps.clone());
    let units = encoded.as_es_str().as_u16s().to_vec();
    assert_eq!(units, vec![0x61, 0xD83D, 0xDE00, 0xDC00, 0xD800, 0x7A]);
    assert_eq!(CodePoint::decode_utf16(units).collect_vec(), cps);
}

#[test]
fn a_split_pair_reads_back_as_one_code_point() {
    // a leading surrogate code point directly before a trailing one
    let cps = vec![CodePoint::from_u16(0xD83D), CodePoint::from_u16(0xDE00)];
    let encoded = EsString::from_code_points(cps);
    let decoded = CodePoint::decode_utf16(encoded.as_es_str().as_u16s().to_vec()).collect_vec();
    assert_eq!(decoded, vec![CodePoint::from_u32(0x1F600).unwrap()]);
}

#[test]
fn rust_text_survives_the_round_trip() {
    let text = "h\u{e9}llo \u{1F600} \u{10FFFF}!";
    assert_eq!(EsString::from(text).to_string(), text);
    assert_eq!(EsString::from(text).as_es_str().to_string(), text);
}

#[test]
fn positions_are_ordered_by_line_then_column() {
    let a = Position { line: 0, column: 9 };
    let b = Position { line: 1, column: 0 };
    let c = Position { line: 1, column: 3 };
    assert!(a < b);
    assert!(b < c);
    assert!(a < c);
    assert_eq!(b.partial_cmp(&b), Some(std::cmp::Ordering::Equal));
    assert_eq!(c.partial_cmp(&a), Some(std::cmp::Ordering::Greater));
}

#[test]
fn a_surrogate_pair_survives_the_round_trip() {
    let lead = LeadingSurrogateChar::new(0xD83D).unwrap();
    let trail = TrailingSurrogateChar::new(0xDE00).unwrap();
    let cp = utf16::CodePoint::from_surrogate_pair(lead, trail);
    assert_eq!(cp.code_point(), 0x1F600);
    assert_eq!(Utf16Char::from_code_point(cp), Utf16Char::SurrogatePair(lead, trail));
}

#[test]
fn new_line_tokens_never_follow_each_other() {
    let source = EsString::from("a\n\n  \n// comment\n/* block */\nb");
    let mut lexer = Lexer::new(CharStream::new(source.as_es_str()));
    let first = lexer.read_default_mode().unwrap();
    assert_eq!(first.content, TokenContent::IdentifierName(EsString::from("a")));
    assert_eq!(lexer.read_default_mode().unwrap().content, TokenContent::NewLine);
    let b = lexer.read_default_mode().unwrap();
    assert_eq!(b.content, TokenContent::IdentifierName(EsString::from("b")));
    assert_eq!(b.range.start, Position { line: 5, column: 0 });
    assert_eq!(lexer.read_default_mode().unwrap().content, TokenContent::EOF);
}

#[test]
fn peeking_does_not_change_what_is_read() {
    let mut stream = PeekableStream::new(code_points("xyz"));
    assert_eq!(stream.peek(2), Some(CodePoint::from_char('z')));
    assert_eq!(stream.peek(0), Some(CodePoint::from_char('x')));
    assert_eq!(stream.peek(3), None);
    assert_eq!(*stream.get_pos(), Position::zero());
    assert_eq!(stream.next(), Some(CodePoint::from_char('x')));
    assert_eq!(stream.next(), Some(CodePoint::from_char('y')));
    assert_eq!(stream.next(), Some(CodePoint::from_char('z')));
    assert_eq!(stream.next(), None);
    assert_eq!(*stream.get_pos(), Position { line: 0, column: 3 });
}

// ---------------------------------------------------------------------------
// Code points

#[test]
fn code_point_bounds() {
    assert_eq!(CodePoint::from_u32(0x110000), None);
    assert_eq!(CodePoint::from_u32(0x10FFFF).unwrap().as_u32(), 0x10FFFF);
    assert_eq!(CodePoint::from_u32(0).unwrap().as_u32(), 0);
    assert_eq!(utf16::CodePoint::from_u32(0x110000), None);
    assert_eq!(utf16::CodePoint::from_u32(0x10FFFF).unwrap().code_point(), 0x10FFFF);
}

#[test]
fn code_point_chars_and_surrogates() {
    let surrogate = CodePoint::from_u16(0xDFFF);
    assert!(surrogate.is_unpaired_surrogate());
    assert_eq!(surrogate.as_char(), None);
    assert_eq!(surrogate.to_char_lossy(), '\u{FFFD}');
    assert_eq!(surrogate.to_string(), "\u{FFFD}");
    let e = CodePoint::from_char('\u{e9}');
    assert!(!e.is_unpaired_surrogate());
    assert_eq!(e.as_char(), Some('\u{e9}'));
    assert_eq!(e.to_string(), "\u{e9}");
    assert_eq!(CodePoint::from_u16(0xD7FF).as_char(), Some('\u{D7FF}'));
    assert_eq!(CodePoint::from_u16(0xE000).as_char(), Some('\u{E000}'));
}

#[test]
fn code_unit_counts() {
    assert_eq!(CodePoint::from_u32(0xFFFF).unwrap().code_unit_count(), CodeUnitCount::ONE);
    assert_eq!(CodePoint::from_u32(0x10000).unwrap().code_unit_count(), CodeUnitCount::TWO);
    assert_eq!(CodeUnitCount::ONE.as_usize(), 1);
    assert_eq!(CodeUnitCount::TWO.as_usize(), 2);
    assert_eq!(utf16::CodePoint::from_u32(0xFFFF).unwrap().code_unit_count(), 1);
    assert_eq!(utf16::CodePoint::from_u32(0x10000).unwrap().code_unit_count(), 2);
}

#[test]
fn encode_utf16_of_one_and_two_units() {
    assert_eq!(CodePoint::from_char('a').encode_utf16().as_slice(), &[0x61]);
    assert_eq!(CodePoint::from_u16(0xD800).encode_utf16().as_slice(), &[0xD800]);
    assert_eq!(CodePoint::from_u32(0x1F600).unwrap().encode_utf16().as_slice(), &[0xD83D, 0xDE00]);
    assert_eq!(CodePoint::from_u32(0x10FFFF).unwrap().encode_utf16().as_slice(), &[0xDBFF, 0xDFFF]);
}

#[test]
fn decoder_reads_one_code_point_at_a_time() {
    let mut decoder = CodePoint::decode_utf16(vec![0xD83D, 0xDE00, 0x41]);
    assert_eq!(decoder.next(), CodePoint::from_u32(0x1F600));
    assert_eq!(decoder.next(), Some(CodePoint::from_char('A')));
    assert_eq!(decoder.next(), None);
    assert_eq!(decoder.next(), None);
}

// ---------------------------------------------------------------------------
// The classified code units

#[test]
fn code_units_by_kind() {
    assert!(BmpChar::new(0xD800).is_none());
    assert!(BmpChar::new(0xDFFF).is_none());
    assert_eq!(BmpChar::new(0x41).unwrap().code(), 0x41);
    assert_eq!(BmpChar::new(0xFFFF).unwrap().code(), 0xFFFF);
    assert!(LeadingSurrogateChar::new(0xDC00).is_none());
    assert_eq!(LeadingSurrogateChar::new(0xDBFF).unwrap().code(), 0xDBFF);
    assert!(TrailingSurrogateChar::new(0xDBFF).is_none());
    assert_eq!(TrailingSurrogateChar::new(0xDC00).unwrap().code(), 0xDC00);
    assert_eq!(
        DecodedCodeUnit::from_char_code(0x41),
        DecodedCodeUnit::Bmp(BmpChar::new(0x41).unwrap())
    );
    assert_eq!(
        DecodedCodeUnit::from_char_code(0xD801),
        DecodedCodeUnit::LeadingSurrogate(LeadingSurrogateChar::new(0xD801).unwrap())
    );
    assert_eq!(
        DecodedCodeUnit::from_char_code(0xDC01),
        DecodedCodeUnit::TrailingSurrogate(TrailingSurrogateChar::new(0xDC01).unwrap())
    );
}

#[test]
fn utf16_char_kinds() {
    assert_eq!(
        Utf16Char::from_code_point(utf16::CodePoint::from_char('x')),
        Utf16Char::Bmp(BmpChar::new(0x78).unwrap())
    );
    assert_eq!(
        Utf16Char::from_code_point(utf16::CodePoint::from_u16(0xD800)),
        Utf16Char::UnpairedLeadingSurrogate(LeadingSurrogateChar::new(0xD800).unwrap())
    );
    assert_eq!(
        Utf16Char::from_code_point(utf16::CodePoint::from_u16(0xDFFF)),
        Utf16Char::UnpairedTrailingSurrogate(TrailingSurrogateChar::new(0xDFFF).unwrap())
    );
}

#[test]
fn utf16_code_point_from_code_units() {
    let lead = LeadingSurrogateChar::new(0xDBFF).unwrap();
    let trail = TrailingSurrogateChar::new(0xDFFF).unwrap();
    assert_eq!(utf16::CodePoint::from_surrogate_pair(lead, trail).code_point(), 0x10FFFF);
    assert_eq!(utf16::CodePoint::from_code_unit(lead).code_point(), 0xDBFF);
    assert!(utf16::CodePoint::from_code_unit(lead).is_unpaired_surrogate());
    assert_eq!(utf16::CodePoint::from_code_unit(BmpChar::new(0x30).unwrap()).as_char(), Some('0'));
}

#[test]
fn utf16_code_point_text() {
    assert_eq!(utf16::CodePoint::from_u16(0xD800).to_string(), "\\u55296");
    assert_eq!(utf16::CodePoint::from_u16(0xDFFF).to_string(), "\\u57343");
    assert_eq!(utf16::CodePoint::from_char('x').to_string(), "x");
    assert_eq!(utf16::CodePoint::from_u32(0x1F600).unwrap().to_string(), "\u{1F600}");
}

#[test]
fn utf16_strings() {
    let s = utf16::EsString::from_char_code(vec![0x48, 0x69, 0xD800]);
    assert_eq!(s.to_string(), "Hi\u{FFFD}");
    assert_eq!(s.as_es_str().as_u16s(), &[0x48, 0x69, 0xD800]);
    assert_eq!(s.as_es_str().to_string(), "Hi\u{FFFD}");
}

// ---------------------------------------------------------------------------
// Strings

#[test]
fn es_str_indexing() {
    let owned = EsString::from("a\u{1F600}b");
    let s = owned.as_es_str();
    assert_eq!(s.len(), 4);
    assert_eq!(s.get(1usize), Some(&0xD83D));
    assert_eq!(s.get(4usize), None);
    assert_eq!(*s.index(3usize), 0x62);
    assert_eq!(s.get(1..3).unwrap().as_u16s(), &[0xD83D, 0xDE00]);
    assert_eq!(s.get(2..5), None);
    assert_eq!(s.get(3..2), None);
    assert_eq!(s.index(0..0).len(), 0);
    assert_eq!(s.index(3..4).as_u16s(), &[0x62]);
}

#[test]
fn es_str_code_point_at() {
    let owned = EsString::from("a\u{1F600}b");
    let s = owned.as_es_str();
    assert_eq!(s.code_point_at(0), Some(CodePoint::from_char('a')));
    assert_eq!(s.code_point_at(1), CodePoint::from_u32(0x1F600));
    assert_eq!(s.code_point_at(2), Some(CodePoint::from_u16(0xDE00)));
    assert_eq!(s.code_point_at(4), None);
    let lone = [0xD800u16];
    assert_eq!(EsStr::from_utf16(&lone).code_point_at(0), Some(CodePoint::from_u16(0xD800)));
}

#[test]
fn es_str_starts_with_and_to_owned() {
    let owned = EsString::from("\r\nabc");
    let s = owned.as_es_str();
    let crlf = units("\r\n");
    let cr = units("\r");
    let longer = units("\r\nabcd");
    assert!(s.starts_with(&EsStr::from_utf16(&crlf)));
    assert!(s.starts_with(&EsStr::from_utf16(&cr)));
    assert!(s.starts_with(&EsStr::from_utf16(&[])));
    assert!(!s.starts_with(&EsStr::from_utf16(&longer)));
    assert!(!s.index(1..5).starts_with(&EsStr::from_utf16(&cr)));
    assert_eq!(s.to_owned(), owned);
    assert_eq!(s.index(2..4).to_owned(), EsString::from("ab"));
}

#[test]
fn es_string_building() {
    let mut s = EsString::new();
    assert!(s.is_empty());
    assert_eq!(s, EsString::default());
    s.reserve(10);
    assert!(s.is_empty());
    s.push_char_code(0x41);
    s.push_code_point(CodePoint::from_u32(0x1F600).unwrap());
    s.push_code_point(CodePoint::from_u16(0xDC00));
    assert!(!s.is_empty());
    assert_eq!(s.as_es_str().as_u16s(), &[0x41, 0xD83D, 0xDE00, 0xDC00]);
    assert_eq!(s.to_string(), "A\u{1F600}\u{FFFD}");
    assert_eq!(EsString::from_utf16(vec![0x41, 0x42]), EsString::from("AB"));
}

#[test]
fn syntax_strings() {
    let mut s = syntax::EsString::new();
    assert!(s.is_empty());
    assert_eq!(s, syntax::EsString::default());
    s.push_char_code(0x61);
    s.push_code_point(CodePoint::from_u32(0x10400).unwrap());
    s.push_code_point(CodePoint::from_u16(0xD800));
    assert_eq!(s.as_es_str().as_u16s(), &[0x61, 0xD801, 0xDC00, 0xD800]);
    assert_eq!(s.to_string(), "a\u{10400}\u{FFFD}");
    assert_eq!(s.as_es_str().to_string(), "a\u{10400}\u{FFFD}");
    assert_eq!(s.as_es_str().to_owned(), s);
    assert_eq!(syntax::EsStr::from_u16s(&[0x62]).to_owned(), syntax::EsString::from_char_code(vec![0x62]));
    assert_eq!(syntax::EsString::from("a\u{1F600}").as_es_str().as_u16s(), &[0x61, 0xD83D, 0xDE00]);
    assert_eq!(syntax::EsString::from("a\u{1F600}").to_string(), "a\u{1F600}");
}

// ---------------------------------------------------------------------------
// Positions

#[test]
fn position_text_counts_from_one() {
    assert_eq!(Position::zero().to_string(), "(Line 1, Column 1)");
    assert_eq!(Position { line: 2, column: 11 }.to_string(), "(Line 3, Column 12)");
    assert_eq!(Position { line: 99, column: 0 }.to_string(), "(Line 100, Column 1)");
}

#[test]
fn ranges() {
    let start = Position { line: 1, column: 2 };
    let end = Position { line: 3, column: 4 };
    let r = Range::new(start, end);
    assert_eq!(r.start, start);
    assert_eq!(r.end, end);
    let z = Range::zero_width(end);
    assert_eq!(z.start, end);
    assert_eq!(z.end, end);
}

// ---------------------------------------------------------------------------
// The char stream

#[test]
fn crlf_is_read_as_one_line_feed() {
    let source = EsString::from("a\r\nb\rc");
    let mut stream = CharStream::new(source.as_es_str());
    assert_eq!(stream.next(), Some(CodePoint::from_char('a')));
    // the current code point is CR until the line end is read
    assert_eq!(stream.char(), Some(CodePoint::from_char('\r')));
    assert_eq!(stream.next(), Some(CodePoint::from_char('\n')));
    assert_eq!(stream.pos(), Position { line: 1, column: 0 });
    assert_eq!(stream.next(), Some(CodePoint::from_char('b')));
    assert_eq!(stream.next(), Some(CodePoint::from_char('\n')));
    assert_eq!(stream.pos(), Position { line: 2, column: 0 });
    assert_eq!(stream.next(), Some(CodePoint::from_char('c')));
    assert_eq!(stream.next(), None);
    assert_eq!(stream.pos(), Position { line: 2, column: 1 });
}

#[test]
fn char_stream_reads_surrogate_pairs_whole() {
    let source = EsString::from_utf16(vec![0xD83D, 0xDE00, 0xDC00, 0x41]);
    let mut stream = CharStream::new(source.as_es_str());
    assert_eq!(stream.char(), CodePoint::from_u32(0x1F600));
    assert_eq!(stream.char_nth(1), Some(CodePoint::from_u16(0xDC00)));
    assert_eq!(stream.char_nth(2), Some(CodePoint::from_char('A')));
    assert_eq!(stream.char_nth(3), None);
    assert_eq!(stream.char_nth(7), None);
    assert_eq!(stream.next(), CodePoint::from_u32(0x1F600));
    assert_eq!(stream.pos(), Position { line: 0, column: 2 });
    assert_eq!(stream.next(), Some(CodePoint::from_u16(0xDC00)));
    assert_eq!(stream.pos(), Position { line: 0, column: 3 });
}

#[test]
fn next_if_reads_only_what_is_accepted() {
    let source = EsString::from("12a");
    let mut stream = CharStream::new(source.as_es_str());
    assert_eq!(stream.next_if(is_digit), Some(CodePoint::from_char('1')));
    assert_eq!(stream.next_if_eq(CodePoint::from_char('x')), None);
    assert_eq!(stream.pos(), Position { line: 0, column: 1 });
    assert_eq!(stream.next_if_eq(CodePoint::from_char('2')), Some(CodePoint::from_char('2')));
    assert_eq!(stream.next_if(is_digit), None);
    assert_eq!(stream.pos(), Position { line: 0, column: 2 });
    assert!(!stream.try_read_eol());
    assert_eq!(stream.next(), Some(CodePoint::from_char('a')));
    assert_eq!(stream.next_if(is_digit), None);
}

#[test]
fn try_read_eol_moves_to_the_next_line() {
    let source = EsString::from("\r\n\n");
    let mut stream = CharStream::new(source.as_es_str());
    assert!(stream.try_read_eol());
    assert_eq!(stream.pos(), Position { line: 1, column: 0 });
    assert!(stream.try_read_eol());
    assert_eq!(stream.pos(), Position { line: 2, column: 0 });
    assert!(!stream.try_read_eol());
    assert_eq!(stream.char(), None);
}

#[test]
fn pos_stream_counts_lines_and_columns() {
    let mut stream = PosStream::new(vec![
        CodePoint::from_char('a'),
        CodePoint::from_u32(0x1F600).unwrap(),
        CodePoint::from_char('\n'),
        CodePoint::from_char('b'),
    ]);
    stream.next();
    stream.next();
    assert_eq!(*stream.get_pos(), Position { line: 0, column: 3 });
    stream.next();
    assert_eq!(*stream.get_pos(), Position { line: 1, column: 0 });
    assert_eq!(stream.next(), Some(CodePoint::from_char('b')));
    assert_eq!(stream.next(), None);
    assert_eq!(*stream.get_pos(), Position { line: 1, column: 1 });
}

#[test]
fn create_char_stream_leaves_out_carriage_returns() {
    let mut stream = create_char_stream(units("a\r\nb\r"));
    assert_eq!(stream.next(), Some(CodePoint::from_char('a')));
    assert_eq!(stream.next(), Some(CodePoint::from_char('\n')));
    assert_eq!(stream.next(), Some(CodePoint::from_char('b')));
    assert_eq!(stream.next(), None);
    assert_eq!(*stream.get_pos(), Position { line: 1, column: 1 });
}

// ---------------------------------------------------------------------------
// Code point classes

#[test]
fn code_point_classes() {
    let c = CodePoint::from_char;
    assert!(is_space_char(c(' ')) && is_space_char(c('\t')) && !is_space_char(c('\n')));
    assert!(is_line_break_char(c('\n')) && is_line_break_char(c('\r')) && !is_line_break_char(c(' ')));
    assert!(is_whitespace_char(c('\r')) && is_whitespace_char(c('\t')) && !is_whitespace_char(c('a')));
    assert!(is_digit(c('0')) && is_digit(c('9')) && !is_digit(c('a')));
    assert!(is_identifier_start(c('_')) && is_identifier_start(c('Z')) && !is_identifier_start(c('1')));
    assert!(is_identifier_part(c('1')) && is_identifier_part(c('z')) && !is_identifier_part(c('-')));
    assert!(is_hex_digit(c('f')) && is_hex_digit(c('A')) && !is_hex_digit(c('g')));
}

// ---------------------------------------------------------------------------
// Tokens

fn read_one(content: &str) -> (TokenContent, Option<CodePoint>) {
    let source = EsString::from(content);
    let mut stream = CharStream::new(source.as_es_str());
    let token = match_token(&mut stream);
    (token, stream.char())
}

#[test]
fn non_ascii_identifiers() {
    assert_eq!(
        read_one("\u{e9}t\u{e9} x"),
        (TokenContent::IdentifierName(EsString::from("\u{e9}t\u{e9}")), Some(CodePoint::from_char(' ')))
    );
    assert_eq!(
        read_one("a\u{30FC}1"),
        (TokenContent::IdentifierName(EsString::from("a\u{30FC}1")), None)
    );
}

#[test]
fn identifier_stops_at_what_cannot_continue_it() {
    let source = EsString::from("ab-c");
    let mut stream = CharStream::new(source.as_es_str());
    assert_eq!(read_identifier_name_string(&mut stream), EsString::from("ab"));
    assert_eq!(stream.char(), Some(CodePoint::from_char('-')));
    assert_eq!(read_identifier_name_string(&mut stream), EsString::new());
    assert_eq!(try_read_identifier_name(&mut stream), None);
    assert_eq!(stream.pos(), Position { line: 0, column: 2 });
}

#[test]
fn unknown_code_points_are_given_but_not_read() {
    assert_eq!(
        read_one("$"),
        (TokenContent::Unknown(EsString::from("$")), Some(CodePoint::from_char('$')))
    );
    assert_eq!(
        read_one("\u{1F600}!"),
        (TokenContent::Unknown(EsString::from("\u{1F600}")), CodePoint::from_u32(0x1F600))
    );
}

#[test]
fn operators_of_one_code_point_leave_the_next_unread() {
    let c = CodePoint::from_char;
    assert_eq!(read_one("&x"), (TokenContent::Unknown(EsString::from("&")), Some(c('x'))));
    assert_eq!(read_one("+b"), (TokenContent::Plus, Some(c('b'))));
    assert_eq!(read_one("+"), (TokenContent::Plus, None));
    assert_eq!(read_one("!a"), (TokenContent::Not, Some(c('a'))));
    assert_eq!(read_one("#x"), (TokenContent::Sharp, Some(c('x'))));
    assert_eq!(read_one("##x"), (TokenContent::Unknown(EsString::from("##")), Some(c('x'))));
    assert_eq!(read_one("-1"), (TokenContent::Minus, Some(c('1'))));
    assert_eq!(read_one(":A"), (TokenContent::Colon, Some(c('A'))));
    assert_eq!(read_one("<x"), (TokenContent::Lt, Some(c('x'))));
    assert_eq!(read_one("=1"), (TokenContent::Eq, Some(c('1'))));
    assert_eq!(read_one(">y"), (TokenContent::Gt, Some(c('y'))));
    assert_eq!(read_one("|z"), (TokenContent::Or, Some(c('z'))));
    assert_eq!(read_one("<:x"), (TokenContent::Out, Some(c('x'))));
    assert_eq!(read_one("=>x"), (TokenContent::Arrow, Some(c('x'))));
}

#[test]
fn peekable_reader_leaves_the_next_code_point_unread() {
    let mut stream = PeekableStream::new(code_points("!a"));
    assert_eq!(maiscript::parser::peekable_token::match_token(&mut stream), TokenContent::Not);
    assert_eq!(stream.peek(0), Some(CodePoint::from_char('a')));
    let mut stream = PeekableStream::new(code_points("##]"));
    assert_eq!(
        maiscript::parser::peekable_token::match_token(&mut stream),
        TokenContent::Unknown(EsString::from("##"))
    );
    assert_eq!(stream.next(), Some(CodePoint::from_char(']')));
}

#[test]
fn enum_variant_paths_read_as_three_tokens() {
    let source = EsString::from("Fruit:Apple");
    let mut lexer = Lexer::new(CharStream::new(source.as_es_str()));
    assert_eq!(lexer.read_default_mode().unwrap().content, TokenContent::IdentifierName(EsString::from("Fruit")));
    assert_eq!(lexer.read_default_mode().unwrap().content, TokenContent::Colon);
    assert_eq!(lexer.read_default_mode().unwrap().content, TokenContent::IdentifierName(EsString::from("Apple")));
    assert_eq!(lexer.read_default_mode().unwrap().content, TokenContent::EOF);
}

#[test]
fn numbers_before_identifiers() {
    assert_eq!(
        read_one("12ab"),
        (TokenContent::NumberLiteral(EsString::from("12")), Some(CodePoint::from_char('a')))
    );
    assert_eq!(read_one("3.x").0, TokenContent::IncompleteNumberLiteral(EsString::from("3.")));
}

#[test]
fn escaped_characters_in_string_literals() {
    assert_eq!(read_one(r#""a\nb""#).0, TokenContent::StringLiteral(EsString::from("anb")));
    assert_eq!(read_one(r#"'\\'"#).0, TokenContent::StringLiteral(EsString::from("\\")));
    assert_eq!(read_one("\"\u{1F600}\"").0, TokenContent::StringLiteral(EsString::from("\u{1F600}")));
}

#[test]
fn lexer_tokens_and_ranges() {
    let source = EsString::from("  x += 1.5");
    let mut lexer = Lexer::new(CharStream::new(source.as_es_str()));
    let x = lexer.read_default_mode().unwrap();
    assert_eq!(x.content, TokenContent::IdentifierName(EsString::from("x")));
    assert!(x.has_left_spacing);
    assert_eq!(x.range, Range::new(Position { line: 0, column: 2 }, Position { line: 0, column: 3 }));
    let op = lexer.read_default_mode().unwrap();
    assert_eq!(op.content, TokenContent::PlusEq);
    assert!(op.has_left_spacing);
    let n = lexer.read_default_mode().unwrap();
    assert_eq!(n.content, TokenContent::NumberLiteral(EsString::from("1.5")));
    assert_eq!(n.range.end, Position { line: 0, column: 10 });
    let eof = lexer.read_default_mode().unwrap();
    assert_eq!(eof.content, TokenContent::EOF);
    assert!(!eof.has_left_spacing);
}

#[test]
fn lexer_reports_an_unclosed_block_comment() {
    let source = EsString::from("x /* no end");
    let mut lexer = Lexer::new(CharStream::new(source.as_es_str()));
    assert_eq!(lexer.read_default_mode().unwrap().content, TokenContent::IdentifierName(EsString::from("x")));
    let err = lexer.read_default_mode().unwrap_err();
    assert_eq!(err.source, AiScriptSyntaxErrorSource::UnexpectedEOF);
    assert_eq!(err.pos, Position { line: 0, column: 11 });
}

#[test]
fn lexer_reports_an_unclosed_comment_after_a_line_end() {
    let source = EsString::from("\n/*");
    let mut lexer = Lexer::new(CharStream::new(source.as_es_str()));
    let err = lexer.read_default_mode().unwrap_err();
    assert_eq!(err.source, AiScriptSyntaxErrorSource::UnexpectedEOF);
    assert_eq!(err.pos, Position { line: 1, column: 2 });
}

// ---------------------------------------------------------------------------
// Conversions

#[test]
fn conversions_into_code_points() {
    assert_eq!(CodePoint::from('x'), CodePoint::from_char('x'));
    assert_eq!(CodePoint::from(0xD800u16), CodePoint::from_u16(0xD800));
    assert_eq!(utf16::CodePoint::from('x').code_point(), 0x78);
    assert_eq!(utf16::CodePoint::from(0xDC00u16).code_point(), 0xDC00);
    let lead = LeadingSurrogateChar::new(0xD801).unwrap();
    assert_eq!(utf16::CodePoint::from(lead).code_point(), 0xD801);
    assert_eq!(utf16::CodePoint::from(BmpChar::new(0x41).unwrap()).code_point(), 0x41);
}

#[test]
fn conversions_of_code_units() {
    assert_eq!(u16::from(BmpChar::new(0x41).unwrap()), 0x41);
    assert_eq!(u16::from(LeadingSurrogateChar::new(0xD801).unwrap()), 0xD801);
    assert_eq!(u16::from(TrailingSurrogateChar::new(0xDFFE).unwrap()), 0xDFFE);
    assert_eq!(
        DecodedCodeUnit::from(0xDBFFu16),
        DecodedCodeUnit::LeadingSurrogate(LeadingSurrogateChar::new(0xDBFF).unwrap())
    );
    let cp = utf16::CodePoint::from_u32(0x10437).unwrap();
    assert_eq!(
        Utf16Char::from(cp),
        Utf16Char::SurrogatePair(
            LeadingSurrogateChar::new(0xD801).unwrap(),
            TrailingSurrogateChar::new(0xDC37).unwrap()
        )
    );
}

#[test]
fn a_line_comment_stops_at_lf_but_not_at_crlf() {
    let lf = EsString::from("a // c\nb");
    let mut lexer = Lexer::new(CharStream::new(lf.as_es_str()));
    assert_eq!(lexer.read_default_mode().unwrap().content, TokenContent::IdentifierName(EsString::from("a")));
    assert_eq!(lexer.read_default_mode().unwrap().content, TokenContent::NewLine);
    assert_eq!(lexer.read_default_mode().unwrap().content, TokenContent::IdentifierName(EsString::from("b")));

    // At CRLF the current code point is CR, so the comment reads the line end and
    // goes on up to the next LF that is not part of a CRLF.
    let crlf = EsString::from("a // c\r\nb\r\nc\nd");
    let mut lexer = Lexer::new(CharStream::new(crlf.as_es_str()));
    assert_eq!(lexer.read_default_mode().unwrap().content, TokenContent::IdentifierName(EsString::from("a")));
    let new_line = lexer.read_default_mode().unwrap();
    assert_eq!(new_line.content, TokenContent::NewLine);
    assert_eq!(new_line.range.start, Position { line: 2, column: 1 });
    let d = lexer.read_default_mode().unwrap();
    assert_eq!(d.content, TokenContent::IdentifierName(EsString::from("d")));
    assert_eq!(d.range.start, Position { line: 3, column: 0 });
}

#[test]
fn a_block_comment_ends_at_the_first_star_slash() {
    let source = EsString::from("/* a */x");
    let mut stream = CharStream::new(source.as_es_str());
    assert_eq!(stream.skip_comment(), Ok(true));
    assert_eq!(stream.char(), Some(CodePoint::from_char('x')));
    let source = EsString::from("/***/b");
    let mut stream = CharStream::new(source.as_es_str());
    assert_eq!(stream.skip_comment(), Ok(true));
    assert_eq!(stream.char(), Some(CodePoint::from_char('b')));
    let source = EsString::from("/* a **/x*/y");
    let mut stream = CharStream::new(source.as_es_str());
    assert_eq!(stream.skip_comment(), Ok(true));
    assert_eq!(stream.char(), Some(CodePoint::from_char('x')));
    let source = EsString::from("/* a *");
    let mut stream = CharStream::new(source.as_es_str());
    let err = stream.skip_comment().unwrap_err();
    assert_eq!(err.source, AiScriptSyntaxErrorSource::UnexpectedEOF);
    assert_eq!(err.pos, Position { line: 0, column: 6 });
}

#[test]
fn es_str_indexing_by_every_range_kind() {
    let owned = EsString::from("abcde");
    let s = owned.as_es_str();
    assert_eq!(s.get(2..).unwrap().as_u16s(), &units("cde")[..]);
    assert_eq!(s.get(5..).unwrap().len(), 0);
    assert_eq!(s.get(6..), None);
    assert_eq!(s.get(..2).unwrap().as_u16s(), &units("ab")[..]);
    assert_eq!(s.get(..6), None);
    assert_eq!(s.get(..=1).unwrap().as_u16s(), &units("ab")[..]);
    assert_eq!(s.get(..=5), None);
    assert_eq!(s.get(..).unwrap().as_u16s(), &units("abcde")[..]);
    assert_eq!(s.get(1..=3).unwrap().as_u16s(), &units("bcd")[..]);
    assert_eq!(s.get(2..=1).unwrap().len(), 0);
    assert_eq!(s.get(1..=5), None);
    assert_eq!(s.get(0..=usize::MAX), None);
    assert_eq!(s.get((Bound::Excluded(0), Bound::Included(2))).unwrap().as_u16s(), &units("bc")[..]);
    assert_eq!(s.get((Bound::Included(3), Bound::Unbounded)).unwrap().as_u16s(), &units("de")[..]);
    assert_eq!(s.get((Bound::Unbounded, Bound::Excluded(1))).unwrap().as_u16s(), &units("a")[..]);
    assert_eq!(s.get((Bound::Excluded(usize::MAX), Bound::Unbounded)), None);
    assert_eq!(s.get((Bound::Unbounded, Bound::Included(usize::MAX))), None);
    assert_eq!(s.get((Bound::Included(4), Bound::Excluded(2))), None);
    assert_eq!(s.index(3..).as_u16s(), &units("de")[..]);
    assert_eq!(s.index(..3).as_u16s(), &units("abc")[..]);
    assert_eq!(s.index(..=0).as_u16s(), &units("a")[..]);
    assert_eq!(s.index(..).len(), 5);
    assert_eq!(s.index(2..=2).as_u16s(), &units("c")[..]);
    assert_eq!(s.index((Bound::Included(1), Bound::Included(1))).as_u16s(), &units("b")[..]);
}
