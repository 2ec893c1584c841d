use maiscript::char_stream::CharStream;
use maiscript::string::{CodePoint, EsString};
use maiscript::syntax::Position;

#[test]
fn char_stream_starts_with_position_zero() {
    let source = EsString::from("abc");
    let stream = CharStream::new(source.as_es_str());
    assert_eq!(stream.pos(), Position::zero());
}

#[test]
fn position_is_not_changed_by_char() {
    let source = EsString::from("abc");
    let stream = CharStream::new(source.as_es_str());
    let cp = stream.char();
    assert_eq!(cp, Some(CodePoint::from_char('a')));
    assert_eq!(stream.pos(), Position::zero());
}

#[test]
fn position_is_not_changed_by_char_nth() {
    let source = EsString::from("abc");
    let stream = CharStream::new(source.as_es_str());
    let cp = stream.char_nth(1);
    assert_eq!(cp, Some(CodePoint::from_char('b')));
    assert_eq!(stream.pos(), Position::zero());
}

#[test]
fn char_stream_position_is_changed_by_next() {
    let source = EsString::from("abc");
    let mut stream = CharStream::new(source.as_es_str());
    let cp = stream.next();
    assert_eq!(cp, Some(CodePoint::from_char('a')));
    assert_eq!(stream.pos(), Position { line: 0, column: 1 });
}

#[test]
fn get_char_by_next() {
    let source = EsString::from("abc");
    let mut stream = CharStream::new(source.as_es_str());
    let cp = stream.char();
    assert_eq!(cp, Some(CodePoint::from_char('a')));
    let next = stream.next();
    assert_eq!(next, Some(CodePoint::from_char('a')));
}

#[test]
fn char_is_idempotent() {
    let source = EsString::from("abc");
    let stream = CharStream::new(source.as_es_str());
    let cp1 = stream.char();
    assert_eq!(cp1, Some(CodePoint::from_char('a')));
    let cp2 = stream.char();
    assert_eq!(cp2, Some(CodePoint::from_char('a')));
}

#[test]
fn test_char_nth() {
    let source = EsString::from("abc");
    let stream = CharStream::new(source.as_es_str());
    let cp = stream.char_nth(1);
    assert_eq!(cp, Some(CodePoint::from_char('b')));
}

#[test]
fn char_stream_surrogate_pair_is_retrieved_at_once() {
    let source = EsString::from("\u{1F92F}");
    let mut stream = CharStream::new(source.as_es_str());
    assert_eq!(stream.next(), Some(CodePoint::from_char('\u{1F92F}')));
    assert_eq!(stream.pos(), Position { line: 0, column: 2 });
}

#[test]
fn lf_as_eol() {
    let source = EsString::from("a\nb");
    let mut stream = CharStream::new(source.as_es_str());
    assert_eq!(stream.next(), Some(CodePoint::from_char('a')));
    assert_eq!(stream.next(), Some(CodePoint::from_char('\n')));
    assert_eq!(stream.pos(), Position { line: 1, column: 0 });
    assert_eq!(stream.next(), Some(CodePoint::from_char('b')));
}

#[test]
fn crlf_as_eol() {
    let source = EsString::from("a\r\nb");
    let mut stream = CharStream::new(source.as_es_str());
    assert_eq!(stream.next(), Some(CodePoint::from_char('a')));
    assert_eq!(stream.next(), Some(CodePoint::from_char('\n')));
    assert_eq!(stream.pos(), Position { line: 1, column: 0 });
    assert_eq!(stream.next(), Some(CodePoint::from_char('b')));
}

#[test]
fn cr_as_eol() {
    let source = EsString::from("a\rb");
    let mut stream = CharStream::new(source.as_es_str());
    assert_eq!(stream.next(), Some(CodePoint::from_char('a')));
    assert_eq!(stream.next(), Some(CodePoint::from_char('\n')));
    assert_eq!(stream.pos(), Position { line: 1, column: 0 });
    assert_eq!(stream.next(), Some(CodePoint::from_char('b')));
}
