//! UTF-16 code units classified by kind, code points built from them, and the
//! string type that holds them.
pub mod code_point;
pub mod code_unit;
pub mod es_string;
pub mod utf16_char;

pub use code_point::CodePoint;
pub use code_unit::{BmpChar, CodeUnit, DecodedCodeUnit, LeadingSurrogateChar, TrailingSurrogateChar};
pub use es_string::{EsStr, EsString};
pub use utf16_char::Utf16Char;
