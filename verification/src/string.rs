//! ECMAScript strings: code points, and owned and borrowed strings of UTF-16
//! code units.
pub mod code_point;
pub mod es_str;
pub mod es_string;
pub mod slice_index;

pub use code_point::{CodePoint, CodeUnitCount, DecodeUtf16};
pub use es_str::{EsStr, EsStrIndex};
pub use es_string::EsString;
