use maiscript::char_stream::CharStream;
use maiscript::parser::error::AiScriptSyntaxErrorSource;
use maiscript::parser::identifier_name::try_read_identifier_name;
use maiscript::parser::lexer::Lexer;
use maiscript::parser::number_literal::try_read_number_literal;
use maiscript::parser::peekable_stream::PeekableStream;
use maiscript::parser::peekable_token;
use maiscript::parser::pos_stream::PosStream;
use maiscript::parser::string_literal::read_string_literal;
use maiscript::parser::token::TokenContent;
use maiscript::string::{CodePoint, EsString};
use maiscript::syntax::Position;

/// Reads a string literal of `content`, from a char stream and from a peekable
/// stream, checks that all of it was read both ways, and gives the token.
fn string_literal(content: &str) -> TokenContent {
    let source = EsString::from(content);
    let mut stream = CharStream::new(source.as_es_str());
    let token = read_string_literal(&mut stream);
    assert!(stream.char().is_none());

    let mut peekable = PeekableStream::new(content.chars().map(CodePoint::from_char).collect());
    let peeked_token = peekable_token::read_string_literal(&mut peekable);
    assert!(peekable.peek(0).is_none());
    assert_eq!(peeked_token, token);
    token
}

#[test]
fn string_literal_single_quote_in_double_quote_string() {
    let expected = TokenContent::StringLiteral(EsString::from("'"));
    assert_eq!(string_literal(r#""'""#), expected);
}

#[test]
fn string_literal_double_quote_in_single_quote_string() {
    let expected = TokenContent::StringLiteral(EsString::from("\""));
    assert_eq!(string_literal(r#"'"'"#), expected);
}

#[test]
fn string_literal_incomplete_double_quote_string() {
    let expected = TokenContent::IncompleteStringLiteral;
    assert_eq!(string_literal(r#""abc"#), expected);
}

#[test]
fn string_literal_incomplete_single_quote_string() {
    let expected = TokenContent::IncompleteStringLiteral;
    assert_eq!(string_literal(r#"'abc"#), expected);
}

#[test]
fn string_literal_escaped_double_quote() {
    let expected = TokenContent::StringLiteral(EsString::from("\""));
    assert_eq!(string_literal(r#""\"""#), expected);
}

#[test]
fn string_literal_escaped_single_quote() {
    let expected = TokenContent::StringLiteral(EsString::from("\'"));
    assert_eq!(string_literal(r"'\''"), expected);
}

#[test]
fn string_literal_incomplete_escape() {
    let expected = TokenContent::IncompleteStringLiteral;
    assert_eq!(string_literal(r#""\"#), expected);
}

fn identifier(content: &str) -> (Option<TokenContent>, Option<CodePoint>, Option<CodePoint>) {
    let source = EsString::from(content);
    let mut stream = CharStream::new(source.as_es_str());
    let token = try_read_identifier_name(&mut stream);
    let first = stream.next();
    let second = stream.next();
    (token, first, second)
}

fn identifier_exact(content: &str) -> TokenContent {
    let (token, rest, _) = identifier(content);
    assert!(rest.is_none());
    token.unwrap()
}

#[test]
fn ascii_ident() {
    assert_eq!(identifier_exact("abc"), TokenContent::IdentifierName(EsString::from("abc")));
}

#[test]
fn keyword_if() {
    assert_eq!(identifier_exact("if"), TokenContent::IdentifierName(EsString::from("if")));
}

#[test]
fn unicode_escape_sequence_4_digits() {
    assert_eq!(
        identifier_exact(r#"\u0041"#),
        TokenContent::IdentifierName(EsString::from(r#"\u0041"#))
    );
}

#[test]
fn unicode_escape_sequence_incomplete_continue() {
    let (token, first, second) = identifier(r#"\u004 "#);
    assert_eq!(token.unwrap(), TokenContent::IdentifierName(EsString::from(r#"\u004"#)));
    assert_eq!(first, Some(CodePoint::from_char(' ')));
    assert_eq!(second, None)
}

#[test]
fn unicode_escape_sequence_incomplete_eof() {
    assert_eq!(
        identifier_exact(r#"\u004"#),
        TokenContent::IdentifierName(EsString::from(r#"\u004"#))
    );
}

#[test]
fn unicode_escape_sequence_bracket() {
    assert_eq!(
        identifier_exact(r#"\u{000041}"#),
        TokenContent::IdentifierName(EsString::from(r#"\u{000041}"#))
    );
}

#[test]
fn unicode_escape_sequence_bracket_not_closed() {
    assert_eq!(
        identifier_exact(r#"\u{000041"#),
        TokenContent::IdentifierName(EsString::from(r#"\u{000041"#))
    );
}

#[test]
fn unicode_escape_sequence_bracket_with_space() {
    assert_eq!(
        identifier_exact(r#"\u{000041 }"#),
        TokenContent::IdentifierName(EsString::from(r#"\u{000041 }"#))
    );
}

#[test]
fn invalid_sequence() {
    assert_eq!(identifier(r#"\x41"#).0, None);
}

fn number(content: &str) -> TokenContent {
    let source = EsString::from(content);
    let mut stream = CharStream::new(source.as_es_str());
    let token = try_read_number_literal(&mut stream);
    assert!(stream.char().is_none());
    token.unwrap()
}

#[test]
fn integer() {
    assert_eq!(number("123"), TokenContent::NumberLiteral(EsString::from("123")));
}

#[test]
fn fraction() {
    assert_eq!(number("0.456"), TokenContent::NumberLiteral(EsString::from("0.456")));
}

#[test]
fn lacking_fraction_part() {
    assert_eq!(number("123."), TokenContent::IncompleteNumberLiteral(EsString::from("123.")));
}

#[test]
fn lacking_integer_part() {
    let source = EsString::from(".123");
    let mut stream = CharStream::new(source.as_es_str());
    let token = try_read_number_literal(&mut stream);
    assert_eq!(token, None);
    assert_eq!(stream.char(), Some(CodePoint::from_char('.')));
}

#[test]
fn empty() {
    let source = EsString::new();
    let mut stream = CharStream::new(source.as_es_str());
    let has_leading_space = stream.skip_space();
    assert_eq!(has_leading_space, false);
    assert_eq!(stream.char(), None);
}

#[test]
fn only_space() {
    let source = EsString::from(" ");
    let mut stream = CharStream::new(source.as_es_str());
    let has_leading_space = stream.skip_space();
    assert_eq!(has_leading_space, true);
    assert_eq!(stream.char(), None);
}

#[test]
fn no_leading_spaces() {
    let source = EsString::from("a");
    let mut stream = CharStream::new(source.as_es_str());
    let has_leading_space = stream.skip_space();
    assert_eq!(has_leading_space, false);
    assert_eq!(stream.char(), Some(CodePoint::from_char('a')));
}

#[test]
fn leading_spaces() {
    let source = EsString::from("  a");
    let mut stream = CharStream::new(source.as_es_str());
    let has_leading_space = stream.skip_space();
    assert_eq!(has_leading_space, true);
    assert_eq!(stream.char(), Some(CodePoint::from_char('a')));
}

#[test]
fn new_lines() {
    let source = EsString::from("\n\na");
    let mut stream = CharStream::new(source.as_es_str());
    let result = stream.skip_whitespace_and_comments();
    result.expect("should have been ok");
    assert_eq!(stream.char(), Some(CodePoint::from_char('a')));
}

#[test]
fn line_comment() {
    let source = EsString::from("//a\nb");
    let mut stream = CharStream::new(source.as_es_str());
    let result = stream.skip_whitespace_and_comments();
    result.expect("should have been ok");
    assert_eq!(stream.char(), Some(CodePoint::from_char('b')));
}

#[test]
fn closed_block_comment() {
    let source = EsString::from("/*a*/b");
    let mut stream = CharStream::new(source.as_es_str());
    let result = stream.skip_whitespace_and_comments();
    assert!(result.is_ok());
    assert_eq!(stream.char(), Some(CodePoint::from_char('b')));
}

#[test]
fn error_with_opened_block_comment() {
    let source = EsString::from("/*a");
    let mut stream = CharStream::new(source.as_es_str());
    let result = stream.skip_whitespace_and_comments();
    assert!(result.is_err_and(|e| matches!(e.source, AiScriptSyntaxErrorSource::UnexpectedEOF)));
}

#[test]
fn error_with_opened_block_comment_asterisk() {
    let source = EsString::from("/*a*");
    let mut stream = CharStream::new(source.as_es_str());
    let result = stream.skip_whitespace_and_comments();
    assert!(result.is_err_and(|e| {
        matches!(e.source, AiScriptSyntaxErrorSource::UnexpectedEOF)
            && e.pos == Position { line: 0, column: 4 }
    }));
}

#[test]
fn multiple_comments() {
    let source = EsString::from("/*a*/\n//b\nc");
    let mut stream = CharStream::new(source.as_es_str());
    let result = stream.skip_whitespace_and_comments();
    assert!(result.is_ok());
    assert_eq!(stream.char(), Some(CodePoint::from_char('c')));
}

#[test]
fn new_line_token_never_read_consecutively() {
    let source = EsString::from("\n\n");
    let stream = CharStream::new(source.as_es_str());
    let mut lexer = Lexer::new(stream);
    assert_eq!(lexer.read_default_mode().unwrap().content, TokenContent::NewLine);
    assert_eq!(lexer.read_default_mode().unwrap().content, TokenContent::EOF);
}

fn pos_stream_of(source: &str) -> PosStream {
    let units: Vec<u16> = source.encode_utf16().collect();
    PosStream::new(CodePoint::decode_utf16(units).collect_vec())
}

#[test]
fn pos_stream_surrogate_pair_is_retrieved_at_once() {
    let mut stream = pos_stream_of("\u{1F92F}");
    assert_eq!(stream.next(), Some(CodePoint::from_char('\u{1F92F}')));
}

#[test]
fn start_with_position_zero() {
    let stream = pos_stream_of("abc");
    assert_eq!(stream.get_pos(), &Position::zero());
}

#[test]
fn lf_is_counted() {
    let mut stream = pos_stream_of("a\nb");
    stream.next();
    assert_eq!(stream.next(), Some(CodePoint::from_char('\n')));
    assert_eq!(stream.get_pos(), &Position { line: 1, column: 0 });
}

fn source() -> Vec<CodePoint> {
    vec![CodePoint::from_char('a'), CodePoint::from_char('b'), CodePoint::from_char('c')]
}

#[test]
fn peekable_stream_starts_with_position_zero() {
    let stream = PeekableStream::new(source());
    assert_eq!(*stream.get_pos(), Position::zero());
}

#[test]
fn position_is_not_changed_by_peek() {
    let mut stream = PeekableStream::new(source());
    let peeked = stream.peek(0);
    assert_eq!(peeked, Some(CodePoint::from_char('a')));
    assert_eq!(*stream.get_pos(), Position::zero());
}

#[test]
fn peekable_stream_position_is_changed_by_next() {
    let mut stream = PeekableStream::new(source());
    let next = stream.next();
    assert_eq!(next, Some(CodePoint::from_char('a')));
    assert_eq!(*stream.get_pos(), Position { line: 0, column: 1 });
}

#[test]
fn get_peeked_value_by_next() {
    let mut stream = PeekableStream::new(source());
    let peeked = stream.peek(0);
    assert_eq!(peeked, Some(CodePoint::from_char('a')));
    let next = stream.next();
    assert_eq!(next, Some(CodePoint::from_char('a')));
}

#[test]
fn peek_is_idempotent() {
    let mut stream = PeekableStream::new(source());
    let peeked_first = stream.peek(0);
    assert_eq!(peeked_first, Some(CodePoint::from_char('a')));
    let peeked_second = stream.peek(0);
    assert_eq!(peeked_second, Some(CodePoint::from_char('a')));
}

#[test]
fn peek_further() {
    let mut stream = PeekableStream::new(source());
    let peeked = stream.peek(1);
    assert_eq!(peeked, Some(CodePoint::from_char('b')));
}
