//! The lexer of mAiScript: it reads tokens from a stream of code points.
pub mod code_points;
pub mod error;
pub mod token;
pub mod string_literal;
pub mod number_literal;
pub mod identifier_name;
pub mod skip_space;
pub mod match_token;
pub mod lexer;
pub mod pos_stream;
pub mod peekable_stream;
pub mod peekable_token;
