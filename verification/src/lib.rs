//! Strings, positions and the lexer of mAiScript, a language that compiles to
//! minified AiScript.
//!
//! Strings are sequences of UTF-16 code units, as in ECMAScript; the lexer reads
//! them code point by code point and turns them into tokens.

pub mod text;
pub mod unicode;
pub mod string;
pub mod syntax;
pub mod utf16;
pub mod char_stream;
pub mod parser;
