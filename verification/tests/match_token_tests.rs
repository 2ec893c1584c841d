use maiscript::char_stream::CharStream;
use maiscript::parser::match_token::match_token;
use maiscript::parser::peekable_stream::PeekableStream;
use maiscript::parser::peekable_token;
use maiscript::parser::token::TokenContent;
use maiscript::string::{CodePoint, EsString};

/// Reads one token of `content` from a char stream, and checks that all of it
/// was read.
fn to_token_from_char_stream(content: &str) -> TokenContent {
    let source = EsString::from(content);
    let mut stream = CharStream::new(source.as_es_str());
    let token = match_token(&mut stream);
    assert!(stream.char().is_none());
    token
}

/// Reads one token of `content`, from a char stream and from a peekable stream,
/// checks that all of it was read both ways, and gives the token.
fn to_token(content: &str) -> TokenContent {
    let token = to_token_from_char_stream(content);

    let mut peekable = PeekableStream::new(content.chars().map(CodePoint::from_char).collect());
    let peeked_token = peekable_token::match_token(&mut peekable);
    assert!(peekable.peek(0).is_none());
    assert_eq!(peeked_token, token);
    token
}

#[test]
fn match_token_token_eof() {
    assert_eq!(to_token(""), TokenContent::EOF);
}

#[test]
fn match_token_token_new_line() {
    assert_eq!(to_token("\n"), TokenContent::NewLine);
}

#[test]
fn match_token_token_not() {
    assert_eq!(to_token("!"), TokenContent::Not);
}

#[test]
fn match_token_token_not_eq() {
    assert_eq!(to_token("!="), TokenContent::NotEq);
}

#[test]
fn match_token_double_quote_string_literal() {
    assert_eq!(to_token("\"abc\""), TokenContent::StringLiteral(EsString::from("abc")));
}

#[test]
fn match_token_single_quote_string_literal() {
    assert_eq!(to_token("'abc'"), TokenContent::StringLiteral(EsString::from("abc")));
}

#[test]
fn match_token_incomplete_string_literal() {
    assert_eq!(to_token("\""), TokenContent::IncompleteStringLiteral);
}

#[test]
fn match_token_token_sharp() {
    assert_eq!(to_token("#"), TokenContent::Sharp);
}

#[test]
fn match_token_token_open_sharp_bracket() {
    assert_eq!(to_token("#["), TokenContent::OpenSharpBracket);
}

#[test]
fn match_token_token_sharp3() {
    assert_eq!(to_token("###"), TokenContent::Sharp3);
}

#[test]
fn match_token_unknown_sharp2() {
    assert_eq!(to_token("##"), TokenContent::Unknown(EsString::from("##")));
}

#[test]
fn match_token_token_percent() {
    assert_eq!(to_token("%"), TokenContent::Percent);
}

#[test]
fn match_token_token_and2() {
    assert_eq!(to_token("&&"), TokenContent::And2);
}

#[test]
fn match_token_unknown_and() {
    assert_eq!(to_token("&"), TokenContent::Unknown(EsString::from("&")));
}

#[test]
fn match_token_token_open_paren() {
    assert_eq!(to_token("("), TokenContent::OpenParen);
}

#[test]
fn match_token_token_close_paren() {
    assert_eq!(to_token(")"), TokenContent::CloseParen);
}

#[test]
fn match_token_token_asterisk() {
    assert_eq!(to_token("*"), TokenContent::Asterisk);
}

#[test]
fn match_token_token_plus() {
    assert_eq!(to_token("+"), TokenContent::Plus);
}

#[test]
fn match_token_token_plus_eq() {
    assert_eq!(to_token("+="), TokenContent::PlusEq);
}

#[test]
fn match_token_token_comma() {
    assert_eq!(to_token(","), TokenContent::Comma);
}

#[test]
fn match_token_token_minus() {
    assert_eq!(to_token("-"), TokenContent::Minus);
}

#[test]
fn match_token_token_minus_eq() {
    assert_eq!(to_token("-="), TokenContent::MinusEq);
}

#[test]
fn match_token_token_dot() {
    assert_eq!(to_token("."), TokenContent::Dot);
}

#[test]
fn match_token_token_slash() {
    assert_eq!(to_token("/"), TokenContent::Slash);
}

#[test]
fn match_token_token_colon() {
    assert_eq!(to_token(":"), TokenContent::Colon);
}

#[test]
fn match_token_token_colon2() {
    assert_eq!(to_token("::"), TokenContent::Colon2);
}

#[test]
fn match_token_token_semi_colon() {
    assert_eq!(to_token(";"), TokenContent::SemiColon);
}

#[test]
fn match_token_token_lt() {
    assert_eq!(to_token("<"), TokenContent::Lt);
}

#[test]
fn match_token_token_lt_eq() {
    assert_eq!(to_token("<="), TokenContent::LtEq);
}

#[test]
fn match_token_token_out() {
    assert_eq!(to_token("<:"), TokenContent::Out);
}

#[test]
fn match_token_token_eq() {
    assert_eq!(to_token("="), TokenContent::Eq);
}

#[test]
fn match_token_token_eq2() {
    assert_eq!(to_token("=="), TokenContent::Eq2);
}

#[test]
fn match_token_token_arrow() {
    assert_eq!(to_token("=>"), TokenContent::Arrow);
}

#[test]
fn match_token_token_gt() {
    assert_eq!(to_token(">"), TokenContent::Gt);
}

#[test]
fn match_token_token_gt_eq() {
    assert_eq!(to_token(">="), TokenContent::GtEq);
}

#[test]
fn match_token_token_question() {
    assert_eq!(to_token("?"), TokenContent::Question);
}

#[test]
fn match_token_token_at() {
    assert_eq!(to_token("@"), TokenContent::At);
}

#[test]
fn match_token_token_open_bracket() {
    assert_eq!(to_token("["), TokenContent::OpenBracket);
}

#[test]
fn match_token_token_back_slash() {
    assert_eq!(to_token("\\"), TokenContent::BackSlash);
}

#[test]
fn match_token_token_close_bracket() {
    assert_eq!(to_token("]"), TokenContent::CloseBracket);
}

#[test]
fn match_token_token_hat() {
    assert_eq!(to_token("^"), TokenContent::Hat);
}

#[test]
fn match_token_token_open_brace() {
    assert_eq!(to_token("{"), TokenContent::OpenBrace);
}

#[test]
fn match_token_token_or() {
    assert_eq!(to_token("|"), TokenContent::Or);
}

#[test]
fn match_token_token_or2() {
    assert_eq!(to_token("||"), TokenContent::Or2);
}

#[test]
fn match_token_token_close_brace() {
    assert_eq!(to_token("}"), TokenContent::CloseBrace);
}

#[test]
fn token_number_literal() {
    assert_eq!(to_token_from_char_stream("123.456"), TokenContent::NumberLiteral(EsString::from("123.456")));
}

#[test]
fn token_incomplete_number_literal() {
    assert_eq!(to_token_from_char_stream("123."), TokenContent::IncompleteNumberLiteral(EsString::from("123.")));
}

#[test]
fn token_identifier_name() {
    assert_eq!(to_token_from_char_stream("if"), TokenContent::IdentifierName(EsString::from("if")));
}
