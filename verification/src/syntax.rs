//! Syntax building blocks: source positions, identifier names, and the string
//! type of the syntax tree.
pub mod es_string;
pub mod identifier;
pub mod position;

pub use es_string::{EsStr, EsString};
pub use identifier::IdentifierName;
pub use position::{Position, Range};
