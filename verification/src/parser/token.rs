//! Tokens, as the lexer reads them.
use vstd::prelude::*;

use crate::string::es_string::EsString;
use crate::syntax::position::Range;

verus! {

/// What a token is, with its text where it has one (of type `S`).
#[derive(Debug, Clone, PartialEq, Eq)]
pub enum TokenContentOf<S> {
    /// the end of the text
    EOF,
    /// a line end
    NewLine,
    /// an identifier or keyword
    IdentifierName(S),
    /// a number literal
    NumberLiteral(S),
    /// a number literal with a decimal point but no fraction part
    IncompleteNumberLiteral(S),
    /// a string literal, by its value
    StringLiteral(S),
    /// a string literal without its closing quotation mark
    IncompleteStringLiteral,
    /// the start of a template string
    TemplateStart,
    /// "!"
    Not,
    /// "!="
    NotEq,
    /// "#"
    Sharp,
    /// "#["
    OpenSharpBracket,
    /// "###"
    Sharp3,
    /// "%"
    Percent,
    /// "&&"
    And2,
    /// "("
    OpenParen,
    /// ")"
    CloseParen,
    /// "*"
    Asterisk,
    /// "+"
    Plus,
    /// "+="
    PlusEq,
    /// ","
    Comma,
    /// "-"
    Minus,
    /// "-="
    MinusEq,
    /// "."
    Dot,
    /// "/"
    Slash,
    /// ":"
    Colon,
    /// "::"
    Colon2,
    /// ";"
    SemiColon,
    /// "<"
    Lt,
    /// "<="
    LtEq,
    /// "<:"
    Out,
    /// "="
    Eq,
    /// "=="
    Eq2,
    /// "=>"
    Arrow,
    /// ">"
    Gt,
    /// ">="
    GtEq,
    /// "?"
    Question,
    /// "@"
    At,
    /// "["
    OpenBracket,
    /// "\\"
    BackSlash,
    /// "]"
    CloseBracket,
    /// "^"
    Hat,
    /// "{"
    OpenBrace,
    /// "|"
    Or,
    /// "||"
    Or2,
    /// "}"
    CloseBrace,
    /// text that is no token
    Unknown(S),
}

/// A token, with its text as an owned string.
pub type TokenContent = TokenContentOf<EsString>;

/// A token, with its text as a sequence of code units.
pub type TokenView = TokenContentOf<Seq<u16>>;

impl View for TokenContentOf<EsString> {
    type V = TokenView;

    open spec fn view(&self) -> TokenView {
        match *self {
            TokenContentOf::EOF => TokenContentOf::EOF,
            TokenContentOf::NewLine => TokenContentOf::NewLine,
            TokenContentOf::IdentifierName(s) => TokenContentOf::IdentifierName(s@),
            TokenContentOf::NumberLiteral(s) => TokenContentOf::NumberLiteral(s@),
            TokenContentOf::IncompleteNumberLiteral(s) => TokenContentOf::IncompleteNumberLiteral(s@),
            TokenContentOf::StringLiteral(s) => TokenContentOf::StringLiteral(s@),
            TokenContentOf::IncompleteStringLiteral => TokenContentOf::IncompleteStringLiteral,
            TokenContentOf::TemplateStart => TokenContentOf::TemplateStart,
            TokenContentOf::Not => TokenContentOf::Not,
            TokenContentOf::NotEq => TokenContentOf::NotEq,
            TokenContentOf::Sharp => TokenContentOf::Sharp,
            TokenContentOf::OpenSharpBracket => TokenContentOf::OpenSharpBracket,
            TokenContentOf::Sharp3 => TokenContentOf::Sharp3,
            TokenContentOf::Percent => TokenContentOf::Percent,
            TokenContentOf::And2 => TokenContentOf::And2,
            TokenContentOf::OpenParen => TokenContentOf::OpenParen,
            TokenContentOf::CloseParen => TokenContentOf::CloseParen,
            TokenContentOf::Asterisk => TokenContentOf::Asterisk,
            TokenContentOf::Plus => TokenContentOf::Plus,
            TokenContentOf::PlusEq => TokenContentOf::PlusEq,
            TokenContentOf::Comma => TokenContentOf::Comma,
            TokenContentOf::Minus => TokenContentOf::Minus,
            TokenContentOf::MinusEq => TokenContentOf::MinusEq,
            TokenContentOf::Dot => TokenContentOf::Dot,
            TokenContentOf::Slash => TokenContentOf::Slash,
            TokenContentOf::Colon => TokenContentOf::Colon,
            TokenContentOf::Colon2 => TokenContentOf::Colon2,
            TokenContentOf::SemiColon => TokenContentOf::SemiColon,
            TokenContentOf::Lt => TokenContentOf::Lt,
            TokenContentOf::LtEq => TokenContentOf::LtEq,
            TokenContentOf::Out => TokenContentOf::Out,
            TokenContentOf::Eq => TokenContentOf::Eq,
            TokenContentOf::Eq2 => TokenContentOf::Eq2,
            TokenContentOf::Arrow => TokenContentOf::Arrow,
            TokenContentOf::Gt => TokenContentOf::Gt,
            TokenContentOf::GtEq => TokenContentOf::GtEq,
            TokenContentOf::Question => TokenContentOf::Question,
            TokenContentOf::At => TokenContentOf::At,
            TokenContentOf::OpenBracket => TokenContentOf::OpenBracket,
            TokenContentOf::BackSlash => TokenContentOf::BackSlash,
            TokenContentOf::CloseBracket => TokenContentOf::CloseBracket,
            TokenContentOf::Hat => TokenContentOf::Hat,
            TokenContentOf::OpenBrace => TokenContentOf::OpenBrace,
            TokenContentOf::Or => TokenContentOf::Or,
            TokenContentOf::Or2 => TokenContentOf::Or2,
            TokenContentOf::CloseBrace => TokenContentOf::CloseBrace,
            TokenContentOf::Unknown(s) => TokenContentOf::Unknown(s@),
        }
    }
}

/// The view of an optional token.
pub open spec fn opt_token_view(t: Option<TokenContent>) -> Option<TokenView> {
    match t {
        Some(t) => Some(t@),
        None => None,
    }
}

/// A token and where it stands.
#[derive(Debug, Clone, PartialEq, Eq)]
pub struct Token {
    pub content: TokenContent,
    pub range: Range,
    /// whether spaces stand before the token
    pub has_left_spacing: bool,
}

/// A token of a template string.
#[derive(Debug, Clone, PartialEq, Eq)]
pub enum TemplateTokenContent {
    /// string until "{", where last "{" is omitted
    Part(EsString),
    /// "`"
    End,
}

/// A token of a template string and where it stands.
#[derive(Debug, Clone, PartialEq, Eq)]
pub struct TemplateToken {
    pub content: TemplateTokenContent,
    pub range: Range,
}

} // verus!
