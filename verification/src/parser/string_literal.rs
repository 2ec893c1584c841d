//! String literals.
use vstd::prelude::*;

use crate::char_stream::{lemma_next_plain, lemma_next_progress, spec_char, spec_next, CharStream, StreamState};
use crate::parser::code_points::{APOSTROPHE, QUOTATION_MARK, REVERSE_SOLIDUS};
use crate::parser::token::{TokenContent, TokenContentOf, TokenView};
use crate::string::code_point::CodePoint;
use crate::string::es_string::EsString;
use crate::unicode::{encode, lemma_surrogate_pair_value, pair_starts_at, surrogate_pair_value};

verus! {

/// Reading the rest of a string literal that `mark` opened, from state `s`, with
/// `value` read so far; `escape` says that a reverse solidus came just before. A
/// reverse solidus makes the next code point part of the value whatever it is;
/// `mark` closes the literal; the end of the text leaves it incomplete.
pub open spec fn spec_string_body(s: StreamState, mark: u32, escape: bool, value: Seq<u16>) -> (
    StreamState,
    TokenView,
)
    decreases s.remaining(),
    when s.wf()
{
    let (s1, c) = spec_next(s);
    match c {
        None => (s1, TokenContentOf::IncompleteStringLiteral),
        Some(c) => {
            proof {
                lemma_next_progress(s);
            }
            if escape {
                spec_string_body(s1, mark, false, value + encode(c))
            } else if c == REVERSE_SOLIDUS {
                spec_string_body(s1, mark, true, value)
            } else if c == mark {
                (s1, TokenContentOf::StringLiteral(value))
            } else {
                spec_string_body(s1, mark, false, value + encode(c))
            }
        },
    }
}

/// Reading a string literal from state `s`: its first code point is the quotation
/// mark that closes it.
pub open spec fn spec_read_string_literal(s: StreamState) -> (StreamState, TokenView) {
    let (s1, mark) = spec_next(s);
    spec_string_body(s1, mark.unwrap(), false, Seq::empty())
}

/// The stream starts with a quotation mark or an apostrophe.
pub open spec fn starts_string_literal(s: StreamState) -> bool {
    spec_char(s) == Some(QUOTATION_MARK) || spec_char(s) == Some(APOSTROPHE)
}

/// A string literal reads as a string literal, complete or not.
pub proof fn lemma_string_body_kind(s: StreamState, mark: u32, escape: bool, value: Seq<u16>)
    requires
        s.wf(),
    ensures
        spec_string_body(s, mark, escape, value).1 is StringLiteral || spec_string_body(
            s,
            mark,
            escape,
            value,
        ).1 is IncompleteStringLiteral,
        spec_string_body(s, mark, escape, value).0.wf(),
        spec_string_body(s, mark, escape, value).0.units == s.units,
    decreases s.remaining(),
{
    lemma_next_progress(s);
    let (s1, c) = spec_next(s);
    if let Some(c) = c {
        if escape {
            lemma_string_body_kind(s1, mark, false, value + encode(c));
        } else if c == REVERSE_SOLIDUS {
            lemma_string_body_kind(s1, mark, true, value);
        } else if c != mark {
            lemma_string_body_kind(s1, mark, false, value + encode(c));
        }
    }
}

/// A subrange followed by the next code unit is the subrange one longer.
proof fn lemma_push_subrange(units: Seq<u16>, a: int, k: int, value: Seq<u16>)
    requires
        0 <= a <= k < units.len(),
        value == units.subrange(a, k),
    ensures
        value + seq![units[k]] == units.subrange(a, k + 1),
{
    assert(value + seq![units[k]] =~= units.subrange(a, k + 1));
}

/// The plain part of a string literal, from index `t.index()` of the text up to
/// the closing mark at index `j`, reads as those very code units.
proof fn lemma_string_body_plain(t: StreamState, mark_unit: u16, open: int, j: int, value: Seq<u16>)
    requires
        t.wf(),
        mark_unit == 0x22u16 || mark_unit == 0x27u16,
        0 <= open < t.index() <= j < t.units.len(),
        t.units[j] == mark_unit,
        value == t.units.subrange(open + 1, t.index()),
        forall|k: int|
            open < k < j ==> #[trigger] t.units[k] != mark_unit && t.units[k] != 0x5Cu16
                && t.units[k] != 0x0Du16,
    ensures
        spec_string_body(t, mark_unit as u32, false, value).1 == TokenContentOf::<Seq<u16>>::StringLiteral(
            t.units.subrange(open + 1, j),
        ),
        spec_string_body(t, mark_unit as u32, false, value).0.index() == j + 1,
    decreases j - t.index(),
{
    let units = t.units;
    let k = t.index();
    lemma_next_progress(t);
    let (t1, c) = spec_next(t);
    if k == j {
        assert(!pair_starts_at(units, k));
        assert(t1.index() == j + 1);
        assert(c == Some(mark_unit as u32));
        assert(value == units.subrange(open + 1, j));
    } else {
        let u = units[k];
        if u == 0x0Au16 {
            assert(c == Some(0x0Au32));
            assert(t1.index() == k + 1);
            assert(encode(0x0Au32) == seq![u]);
            lemma_push_subrange(units, open + 1, k, value);
            lemma_string_body_plain(t1, mark_unit, open, j, value + encode(0x0Au32));
        } else if pair_starts_at(units, k) {
            lemma_surrogate_pair_value(u, units[k + 1]);
            let cp = surrogate_pair_value(u, units[k + 1]);
            assert(k + 1 != j);
            assert(c == Some(cp));
            assert(t1.index() == k + 2);
            assert(value + encode(cp) =~= units.subrange(open + 1, k + 2));
            lemma_string_body_plain(t1, mark_unit, open, j, value + encode(cp));
        } else {
            assert(c == Some(u as u32));
            assert(t1.index() == k + 1);
            assert(encode(u as u32) == seq![u]);
            lemma_push_subrange(units, open + 1, k, value);
            lemma_string_body_plain(t1, mark_unit, open, j, value + encode(u as u32));
        }
    }
}

/// A string literal is complete as soon as its closing mark comes: where the
/// first code unit after the opening mark that equals it stands at index `j`,
/// and no reverse solidus or CR stands between them, the literal is read whole,
/// up to and including index `j`, and its value is every code unit between the
/// marks, line feeds and surrogates included.
pub proof fn law_string_literal_ends_at_its_mark(s: StreamState, j: int)
    requires
        s.wf(),
        starts_string_literal(s),
        s.index() < j < s.units.len(),
        s.units[j] == s.units[s.index()],
        forall|k: int|
            s.index() < k < j ==> #[trigger] s.units[k] != s.units[s.index()] && s.units[k]
                != 0x5Cu16 && s.units[k] != 0x0Du16,
    ensures
        spec_read_string_literal(s).1 == TokenContentOf::<Seq<u16>>::StringLiteral(
            s.units.subrange(s.index() + 1, j),
        ),
        spec_read_string_literal(s).0.index() == j + 1,
{
    let i = s.index();
    let units = s.units;
    lemma_next_progress(s);
    assert(!pair_starts_at(units, i));
    let (s1, mark) = spec_next(s);
    assert(mark == Some(units[i] as u32));
    assert(s1.index() == i + 1);
    assert(units.subrange(i + 1, i + 1) =~= Seq::<u16>::empty());
    lemma_string_body_plain(s1, units[i], i, j, Seq::empty());
}

/// Reads a string literal; the stream must start with a quotation mark or an
/// apostrophe.
pub fn read_string_literal(stream: &mut CharStream<'_>) -> (r: TokenContent)
    requires
        starts_string_literal(old(stream).state()),
    ensures
        (final(stream).state(), r@) == spec_read_string_literal(old(stream).state()),
{
    let ghost s0 = stream.state();
    proof {
        use_type_invariant(&*stream);
        lemma_next_plain(s0);
    }
    let mut value = EsString::new();
    let literal_mark = stream.next().unwrap();
    let mut escape = false;
    loop
        invariant
            s0 == old(stream).state(),
            stream.state().wf(),
            spec_string_body(stream.state(), literal_mark@, escape, value@)
                == spec_read_string_literal(s0),
        decreases stream.state().remaining(),
    {
        proof {
            use_type_invariant(&*stream);
            lemma_next_progress(stream.state());
        }
        let ghost prev = stream.state();
        let c = match stream.next() {
            Some(c) => c,
            None => {
                proof {
                    assert(spec_string_body(prev, literal_mark@, escape, value@) == (
                        stream.state(),
                        TokenContentOf::<Seq<u16>>::IncompleteStringLiteral,
                    ));
                }
                return TokenContentOf::IncompleteStringLiteral;
            },
        };
        if escape {
            value.push_code_point(c);
            escape = false;
        } else if c.as_u32() == REVERSE_SOLIDUS {
            escape = true;
        } else if c == literal_mark {
            proof {
                CodePoint::lemma_eq(c, literal_mark);
                assert(spec_string_body(prev, literal_mark@, escape, value@) == (
                    stream.state(),
                    TokenContentOf::StringLiteral(value@),
                ));
            }
            return TokenContentOf::StringLiteral(value);
        } else {
            proof {
                CodePoint::lemma_eq(c, literal_mark);
            }
            value.push_code_point(c);
        }
    }
}

} // verus!
