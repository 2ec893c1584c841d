use maiscript::string::{CodePoint, EsStr, EsString};
use maiscript::syntax;
use maiscript::utf16;
use maiscript::utf16::code_point::decode_utf16;
use maiscript::utf16::{LeadingSurrogateChar, TrailingSurrogateChar};

fn decode_both(units: Vec<u16>) -> (Vec<CodePoint>, Vec<utf16::CodePoint>) {
    let a = CodePoint::decode_utf16(units.clone()).collect_vec();
    let b = decode_utf16(units).collect_vec();
    (a, b)
}

#[test]
fn code_point_input_bmp_only() {
    let utf16_seq: Vec<u16> = "Hello".encode_utf16().collect();
    let (actual, actual_old) = decode_both(utf16_seq);
    let expected = vec![
        CodePoint::from_char('H'),
        CodePoint::from_char('e'),
        CodePoint::from_char('l'),
        CodePoint::from_char('l'),
        CodePoint::from_char('o'),
    ];
    assert_eq!(actual, expected);
    let expected_old = vec![
        utf16::CodePoint::from_char('H'),
        utf16::CodePoint::from_char('e'),
        utf16::CodePoint::from_char('l'),
        utf16::CodePoint::from_char('l'),
        utf16::CodePoint::from_char('o'),
    ];
    assert_eq!(actual_old, expected_old);
}

#[test]
fn code_point_input_unpaired_leading_surrogate_in_middle() {
    let utf16_seq: Vec<u16> = vec![0xD800, '0' as u16];
    let (actual, actual_old) = decode_both(utf16_seq);
    assert_eq!(actual, vec![CodePoint::from_u16(0xD800), CodePoint::from_char('0')]);
    assert_eq!(actual_old, vec![utf16::CodePoint::from_u16(0xD800), utf16::CodePoint::from_char('0')]);
}

#[test]
fn code_point_input_unpaired_leading_surrogate_at_end() {
    let utf16_seq: Vec<u16> = vec!['0' as u16, 0xD800];
    let (actual, actual_old) = decode_both(utf16_seq);
    assert_eq!(actual, vec![CodePoint::from_char('0'), CodePoint::from_u16(0xD800)]);
    assert_eq!(actual_old, vec![utf16::CodePoint::from_char('0'), utf16::CodePoint::from_u16(0xD800)]);
}

#[test]
fn code_point_input_unpaired_trailing_surrogate_at_start() {
    let utf16_seq: Vec<u16> = vec![0xDC00, '0' as u16];
    let (actual, actual_old) = decode_both(utf16_seq);
    assert_eq!(actual, vec![CodePoint::from_u16(0xDC00), CodePoint::from_char('0')]);
    assert_eq!(actual_old, vec![utf16::CodePoint::from_u16(0xDC00), utf16::CodePoint::from_char('0')]);
}

#[test]
fn code_point_input_unpaired_trailing_surrogate_in_middle() {
    let utf16_seq: Vec<u16> = vec!['0' as u16, 0xDC00];
    let (actual, actual_old) = decode_both(utf16_seq);
    assert_eq!(actual, vec![CodePoint::from_char('0'), CodePoint::from_u16(0xDC00)]);
    assert_eq!(actual_old, vec![utf16::CodePoint::from_char('0'), utf16::CodePoint::from_u16(0xDC00)]);
}

#[test]
fn code_point_input_paired_surrogates() {
    let utf16_seq: Vec<u16> = vec![0xD800, 0xDC00];
    let (actual, actual_old) = decode_both(utf16_seq);
    assert_eq!(actual, vec![CodePoint::from_char('\u{10000}')]);
    let expected_old = vec![utf16::CodePoint::from_surrogate_pair(
        LeadingSurrogateChar::new_unchecked(0xD800),
        TrailingSurrogateChar::new_unchecked(0xDC00),
    )];
    assert_eq!(actual_old, expected_old);
}

#[test]
fn bmp_at_start() {
    let units = ['A' as u16, 'B' as u16, 'C' as u16];
    let s = EsStr::from_utf16(&units);
    assert_eq!(s.code_point_at(0), Some(CodePoint::from_char('A')));
}

#[test]
fn surrogate_pair_hi() {
    let units = [0xd83d, 0xde0d];
    let s = EsStr::from_utf16(&units);
    assert_eq!(s.code_point_at(0), Some(CodePoint::from_char('\u{1f60d}')));
}

#[test]
fn surrogate_pair_lo() {
    let units = [0xd83d, 0xde0d];
    let s = EsStr::from_utf16(&units);
    assert_eq!(s.code_point_at(1), Some(CodePoint::from_u16(0xde0d)));
}

#[test]
fn end() {
    let units = ['A' as u16, 'B' as u16, 'C' as u16];
    let s = EsStr::from_utf16(&units);
    assert_eq!(s.code_point_at(3), None);
}

#[test]
fn out_of_bounds() {
    let units = ['A' as u16, 'B' as u16, 'C' as u16];
    let s = EsStr::from_utf16(&units);
    assert_eq!(s.code_point_at(42), None);
}

#[test]
fn es_string_es_str_is_interpreted_as_utf16() {
    let utf16_seq: Vec<u16> = "Hello, world!".encode_utf16().collect();
    assert_eq!(EsString::from_utf16(utf16_seq.clone()).to_string(), "Hello, world!");
    assert_eq!(syntax::EsString::from_char_code(utf16_seq.clone()).to_string(), "Hello, world!");
    assert_eq!(utf16::EsString::from_char_code(utf16_seq).to_string(), "Hello, world!");
}

#[test]
fn es_string_invalid_code_is_replaced() {
    let utf16_seq: Vec<u16> = vec![0xd800];
    let expected = char::REPLACEMENT_CHARACTER.to_string();
    assert_eq!(EsString::from_utf16(utf16_seq.clone()).to_string(), expected);
    assert_eq!(syntax::EsString::from_char_code(utf16_seq.clone()).to_string(), expected);
    assert_eq!(utf16::EsString::from_char_code(utf16_seq).to_string(), expected);
}
