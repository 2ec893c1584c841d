//! Number literals: digits, and a fraction part after a decimal point.
use vstd::prelude::*;

use crate::char_stream::{lemma_next_plain, lemma_next_progress, spec_char, spec_next, CharStream, StreamState};
use crate::parser::code_points::{is_digit, spec_is_digit, FULL_STOP};
use crate::parser::token::{opt_token_view, TokenContent, TokenContentOf, TokenView};
use crate::string::code_point::CodePoint;
use crate::string::es_string::EsString;
use crate::unicode::encode;

verus! {

broadcast use CodePoint::lemma_view;

/// Reading the digits that the stream starts with, as many as there are: the
/// state after them and their code units.
pub open spec fn spec_digits(s: StreamState) -> (StreamState, Seq<u16>)
    decreases s.remaining(),
    when s.wf()
{
    match spec_char(s) {
        Some(c) => if spec_is_digit(c) {
            proof {
                lemma_next_progress(s);
            }
            let (s2, rest) = spec_digits(spec_next(s).0);
            (s2, encode(c) + rest)
        } else {
            (s, Seq::empty())
        },
        None => (s, Seq::empty()),
    }
}

/// Reading a number literal: digits, then optionally a decimal point and more
/// digits. Without a first digit nothing is read; a decimal point without digits
/// after it makes an incomplete literal.
pub open spec fn spec_try_read_number_literal(s: StreamState) -> (StreamState, Option<TokenView>) {
    let (s1, int_part) = spec_digits(s);
    if int_part.len() == 0 {
        (s, None)
    } else if spec_char(s1) == Some(FULL_STOP) {
        let (s3, frac) = spec_digits(spec_next(s1).0);
        let text = int_part + encode(FULL_STOP) + frac;
        if frac.len() == 0 {
            (s3, Some(TokenContentOf::IncompleteNumberLiteral(text)))
        } else {
            (s3, Some(TokenContentOf::NumberLiteral(text)))
        }
    } else {
        (s1, Some(TokenContentOf::NumberLiteral(int_part)))
    }
}

/// Reading digits keeps the state well-formed and never moves it back.
pub proof fn lemma_digits(s: StreamState)
    requires
        s.wf(),
    ensures
        spec_digits(s).0.wf(),
        spec_digits(s).0.units == s.units,
        spec_digits(s).0.remaining() <= s.remaining(),
        spec_digits(s).1.len() == 0 ==> spec_digits(s).0 == s,
        spec_digits(s).1.len() > 0 ==> (spec_char(s) matches Some(c) && spec_is_digit(c)),
    decreases s.remaining(),
{
    lemma_next_progress(s);
    if let Some(c) = spec_char(s) {
        if spec_is_digit(c) {
            lemma_digits(spec_next(s).0);
            lemma_next_plain(s);
        }
    }
}

/// Reading a number literal keeps the state well-formed, and gives a number
/// literal, complete or not.
pub proof fn lemma_number_literal(s: StreamState)
    requires
        s.wf(),
    ensures
        spec_try_read_number_literal(s).0.wf(),
        spec_try_read_number_literal(s).0.units == s.units,
        spec_try_read_number_literal(s).1 matches Some(t) ==> (t is NumberLiteral
            || t is IncompleteNumberLiteral),
        spec_try_read_number_literal(s).1 is None ==> spec_try_read_number_literal(s).0 == s,
{
    lemma_digits(s);
    let s1 = spec_digits(s).0;
    lemma_next_progress(s1);
    lemma_digits(spec_next(s1).0);
}

/// Reads a number literal if the stream starts with a digit; else reads nothing
/// and gives `None`.
pub fn try_read_number_literal(stream: &mut CharStream<'_>) -> (r: Option<TokenContent>)
    ensures
        (final(stream).state(), opt_token_view(r)) == spec_try_read_number_literal(
            old(stream).state(),
        ),
{
    let ghost s0 = stream.state();
    proof {
        use_type_invariant(&*stream);
        lemma_digits(s0);
    }
    let mut builder = EsString::new();
    if try_read_digits(stream, &mut builder).is_none() {
        return None;
    }
    let ghost s1 = stream.state();
    let ghost int_part = builder@;
    proof {
        use_type_invariant(&*stream);
    }
    if let Some(decimal_point) = stream.next_if_eq(CodePoint::from_char('.')) {
        builder.push_code_point(decimal_point);
        proof {
            use_type_invariant(&*stream);
            lemma_digits(stream.state());
        }
        if try_read_digits(stream, &mut builder).is_none() {
            proof {
                assert(builder@ =~= int_part + encode(FULL_STOP) + Seq::<u16>::empty());
            }
            return Some(TokenContentOf::IncompleteNumberLiteral(builder));
        }
        proof {
            assert(builder@ =~= int_part + encode(FULL_STOP) + spec_digits(spec_next(s1).0).1);
        }
    }
    Some(TokenContentOf::NumberLiteral(builder))
}

/// Reads the digits that the stream starts with onto `dst`; `None` if there is
/// none.
fn try_read_digits(stream: &mut CharStream<'_>, dst: &mut EsString) -> (r: Option<()>)
    ensures
        final(stream).state() == spec_digits(old(stream).state()).0,
        final(dst)@ == old(dst)@ + spec_digits(old(stream).state()).1,
        r is Some <==> spec_digits(old(stream).state()).1.len() > 0,
{
    let ghost s0 = stream.state();
    let ghost d0 = dst@;
    proof {
        use_type_invariant(&*stream);
        lemma_next_progress(s0);
    }
    let first = match stream.next_if(is_digit) {
        Some(c) => c,
        None => {
            proof {
                assert(dst@ =~= d0 + Seq::<u16>::empty());
            }
            return None;
        },
    };
    dst.push_code_point(first);
    loop
        invariant
            s0 == old(stream).state(),
            d0 == old(dst)@,
            stream.state().wf(),
            spec_digits(s0).0 == spec_digits(stream.state()).0,
            d0 + spec_digits(s0).1 == dst@ + spec_digits(stream.state()).1,
            spec_digits(s0).1.len() > 0,
        decreases stream.state().remaining(),
    {
        proof {
            use_type_invariant(&*stream);
            lemma_next_progress(stream.state());
        }
        let ghost prev = stream.state();
        match stream.next_if(is_digit) {
            Some(c) => {
                let ghost before = dst@;
                dst.push_code_point(c);
                proof {
                    assert(before + spec_digits(prev).1 =~= dst@ + spec_digits(stream.state()).1);
                }
            },
            None => {
                proof {
                    assert(spec_digits(prev).1 =~= Seq::<u16>::empty());
                    assert(dst@ =~= d0 + spec_digits(s0).1);
                }
                return Some(());
            },
        }
    }
}

} // verus!
