//! Identifier names.
//!
//! An `IdentifierName` starts with a Unicode code point which has the property
//! ID_START or a unicode escape sequence. Every rest part is a Unicode code point
//! which has the property ID_CONTINUE or a unicode escape sequence. A unicode
//! escape sequence consists of a reverse solidus, letter 'u', and some trailing
//! characters. The trailing characters can be any length if they are enclosed by
//! curly brackets, otherwise up to 4 long. If the trailing characters are not
//! enclosed by brackets, they cannot contain characters except code points with
//! the property ID_CONTINUE.
//!
//! Consequently, this allows an ECMAScript IdentifierName, which is a superset of
//! AiScript `Identifier` and keywords. Additionally, some unicode escape sequences
//! which are invalid in ECMAScript are allowed.
use vstd::prelude::*;

use crate::char_stream::{
    lemma_next_plain, lemma_next_progress, spec_char, spec_char_nth, spec_next, CharStream,
    StreamState,
};
use crate::parser::code_points::{
    spec_is_ascii_letter, spec_is_digit, LATIN_SMALL_LETTER_U, LEFT_CURLY_BRACKET, LOW_LINE,
    REVERSE_SOLIDUS, RIGHT_CURLY_BRACKET,
};
use crate::parser::token::{opt_token_view, TokenContent, TokenContentOf, TokenView};
use crate::string::code_point::CodePoint;
use crate::string::es_string::EsString;
use crate::unicode::{encode, is_surrogate_value};

verus! {

broadcast use CodePoint::lemma_view;

/// Whether unicode-id-start's `is_id_start` holds of a char: the Unicode property
/// ID_Start.
pub uninterp spec fn spec_is_id_start(c: char) -> bool;

/// Whether unicode-id-start's `is_id_continue` holds of a char: the Unicode
/// property ID_Continue.
pub uninterp spec fn spec_is_id_continue(c: char) -> bool;

/// Calls `unicode_id_start::is_id_start`. Its result is named; of an ASCII char
/// the crate's table gives it as true exactly for the letters.
#[verifier::external_body]
fn is_id_start(ch: char) -> (r: bool)
    ensures
        r == spec_is_id_start(ch),
        (ch as u32) < 0x80 ==> (r <==> spec_is_ascii_letter(ch as u32)),
{
    unicode_id_start::is_id_start(ch)
}

/// Calls `unicode_id_start::is_id_continue`. Its result is named; of an ASCII char
/// the crate's table gives it as true exactly for the letters, the digits and the
/// low line.
#[verifier::external_body]
fn is_id_continue(ch: char) -> (r: bool)
    ensures
        r == spec_is_id_continue(ch),
        (ch as u32) < 0x80 ==> (r <==> (spec_is_ascii_letter(ch as u32) || spec_is_digit(
            ch as u32,
        ) || ch as u32 == LOW_LINE)),
{
    unicode_id_start::is_id_continue(ch)
}

/// Whether a code point is a char with the property ID_Continue.
fn is_id_continue_code_point(cp: CodePoint) -> (b: bool)
    ensures
        b == id_char(false, cp@),
{
    match cp.as_char() {
        Some(c) => is_id_continue(c),
        None => false,
    }
}

/// A code point that may stand in an identifier name: at its start (ID_Start) or
/// after it (ID_Continue). Surrogates never may.
pub open spec fn id_char(start: bool, c: u32) -> bool {
    !is_surrogate_value(c) && if start {
        spec_is_id_start(c as char)
    } else {
        spec_is_id_continue(c as char)
    }
}

/// Reading the rest of a unicode escape sequence in curly brackets, up to and
/// including the closing bracket: the state after, whether the bracket came, and
/// the code units read so far.
pub open spec fn spec_escape_braces(s: StreamState, acc: Seq<u16>) -> (StreamState, bool, Seq<u16>)
    decreases s.remaining(),
    when s.wf()
{
    let (s1, c) = spec_next(s);
    match c {
        None => (s1, false, acc),
        Some(c) => {
            proof {
                lemma_next_progress(s);
            }
            if c == RIGHT_CURLY_BRACKET {
                (s1, true, acc + encode(c))
            } else {
                spec_escape_braces(s1, acc + encode(c))
            }
        },
    }
}

/// Reading `k` more ID_Continue code points of a unicode escape sequence: the
/// state after, whether all `k` came, and the code units read so far.
pub open spec fn spec_escape_digits(s: StreamState, acc: Seq<u16>, k: nat) -> (
    StreamState,
    bool,
    Seq<u16>,
)
    decreases k,
{
    if k == 0 {
        (s, true, acc)
    } else {
        match spec_char(s) {
            Some(c) => if id_char(false, c) {
                spec_escape_digits(spec_next(s).0, acc + encode(c), (k - 1) as nat)
            } else {
                (s, false, acc)
            },
            None => (s, false, acc),
        }
    }
}

/// Reading a unicode escape sequence at a reverse solidus: if `u` follows, reads
/// both, then a part in curly brackets or four ID_Continue code points. Gives the
/// state after, whether the sequence is complete, and the code units read.
pub open spec fn spec_unicode_escape(s: StreamState) -> (StreamState, bool, Seq<u16>) {
    if spec_char_nth(s, 1) != Some(LATIN_SMALL_LETTER_U) {
        (s, false, Seq::empty())
    } else {
        let s1 = spec_next(spec_next(s).0).0;
        let acc = encode(REVERSE_SOLIDUS) + encode(LATIN_SMALL_LETTER_U);
        if spec_char(s1) == Some(LEFT_CURLY_BRACKET) {
            spec_escape_braces(spec_next(s1).0, acc + encode(LEFT_CURLY_BRACKET))
        } else {
            spec_escape_digits(s1, acc, 4)
        }
    }
}

/// Reading one part of an identifier name: a unicode escape sequence, or one code
/// point that may stand there. Gives the state after, whether the name goes on,
/// and the code units read.
pub open spec fn spec_escape_or(s: StreamState, start: bool) -> (StreamState, bool, Seq<u16>) {
    match spec_char(s) {
        None => (s, false, Seq::empty()),
        Some(c) => if c == REVERSE_SOLIDUS {
            spec_unicode_escape(s)
        } else if id_char(start, c) {
            (spec_next(s).0, true, encode(c))
        } else {
            (s, false, Seq::empty())
        },
    }
}

/// Reading the parts of an identifier name after the first, with `acc` read so
/// far.
pub open spec fn spec_identifier_rest(s: StreamState, acc: Seq<u16>) -> (StreamState, Seq<u16>)
    decreases s.remaining(),
    when s.wf()
{
    let (s1, ok, part) = spec_escape_or(s, false);
    if !ok {
        (s1, acc + part)
    } else {
        proof {
            lemma_escape_or(s, false);
        }
        spec_identifier_rest(s1, acc + part)
    }
}

/// Reading an identifier name: the state after, and its code units (none if it
/// does not start with an identifier name).
pub open spec fn spec_identifier_name(s: StreamState) -> (StreamState, Seq<u16>) {
    let (s1, ok, part) = spec_escape_or(s, true);
    if !ok {
        (s1, part)
    } else {
        spec_identifier_rest(s1, part)
    }
}

/// Reading an identifier name as a token: `None` where no code unit is read.
pub open spec fn spec_try_read_identifier_name(s: StreamState) -> (StreamState, Option<TokenView>) {
    let (s1, name) = spec_identifier_name(s);
    if name.len() == 0 {
        (s1, None)
    } else {
        (s1, Some(TokenContentOf::IdentifierName(name)))
    }
}

/// Reading the bracket part of an escape keeps the state well-formed and reads
/// something.
pub proof fn lemma_escape_braces(s: StreamState, acc: Seq<u16>)
    requires
        s.wf(),
    ensures
        spec_escape_braces(s, acc).0.wf(),
        spec_escape_braces(s, acc).0.units == s.units,
        spec_escape_braces(s, acc).0.remaining() <= s.remaining(),
    decreases s.remaining(),
{
    lemma_next_progress(s);
    if spec_next(s).1 is Some {
        lemma_escape_braces(spec_next(s).0, acc + encode(spec_next(s).1.unwrap()));
    }
}

/// Reading the four-character part of an escape keeps the state well-formed.
pub proof fn lemma_escape_digits(s: StreamState, acc: Seq<u16>, k: nat)
    requires
        s.wf(),
    ensures
        spec_escape_digits(s, acc, k).0.wf(),
        spec_escape_digits(s, acc, k).0.units == s.units,
        spec_escape_digits(s, acc, k).0.remaining() <= s.remaining(),
    decreases k,
{
    lemma_next_progress(s);
    if k > 0 {
        if let Some(c) = spec_char(s) {
            if id_char(false, c) {
                lemma_escape_digits(spec_next(s).0, acc + encode(c), (k - 1) as nat);
            }
        }
    }
}

/// Reading one part of an identifier name keeps the state well-formed, and reads
/// something when the name goes on.
pub proof fn lemma_escape_or(s: StreamState, start: bool)
    requires
        s.wf(),
    ensures
        spec_escape_or(s, start).0.wf(),
        spec_escape_or(s, start).0.units == s.units,
        spec_escape_or(s, start).0.remaining() <= s.remaining(),
        spec_escape_or(s, start).1 ==> spec_escape_or(s, start).0.remaining() < s.remaining(),
{
    lemma_next_progress(s);
    if let Some(c) = spec_char(s) {
        if c == REVERSE_SOLIDUS {
            if spec_char_nth(s, 1) == Some(LATIN_SMALL_LETTER_U) {
                let s0 = spec_next(s).0;
                lemma_next_progress(s0);
                let s1 = spec_next(s0).0;
                lemma_next_progress(s1);
                let acc = encode(REVERSE_SOLIDUS) + encode(LATIN_SMALL_LETTER_U);
                if spec_char(s1) == Some(LEFT_CURLY_BRACKET) {
                    lemma_escape_braces(spec_next(s1).0, acc + encode(LEFT_CURLY_BRACKET));
                } else {
                    lemma_escape_digits(s1, acc, 4);
                }
            }
        }
    }
}

/// Reading the rest of an identifier name keeps the state well-formed.
pub proof fn lemma_identifier_rest(s: StreamState, acc: Seq<u16>)
    requires
        s.wf(),
    ensures
        spec_identifier_rest(s, acc).0.wf(),
        spec_identifier_rest(s, acc).0.units == s.units,
    decreases s.remaining(),
{
    lemma_escape_or(s, false);
    let (s1, ok, part) = spec_escape_or(s, false);
    if ok {
        lemma_identifier_rest(s1, acc + part);
    }
}

/// Reading an identifier name keeps the state well-formed.
pub proof fn lemma_identifier_name(s: StreamState)
    requires
        s.wf(),
    ensures
        spec_try_read_identifier_name(s).0.wf(),
        spec_try_read_identifier_name(s).0.units == s.units,
        spec_try_read_identifier_name(s).1 matches Some(t) ==> t is IdentifierName,
{
    lemma_escape_or(s, true);
    let (s1, ok, part) = spec_escape_or(s, true);
    if ok {
        lemma_identifier_rest(s1, part);
    }
}

/// Where reading stops after a part of an identifier name: at the end of the
/// text, at a reverse solidus, or at a code point without the property
/// ID_Continue.
pub open spec fn stops_identifier(s: StreamState) -> bool {
    match spec_char(s) {
        None => true,
        Some(c) => c == REVERSE_SOLIDUS || !id_char(false, c),
    }
}

/// The part in curly brackets of an escape fails only at the end of the text.
proof fn lemma_escape_braces_stop(s: StreamState, acc: Seq<u16>)
    requires
        s.wf(),
    ensures
        !spec_escape_braces(s, acc).1 ==> spec_char(spec_escape_braces(s, acc).0) is None,
    decreases s.remaining(),
{
    lemma_next_progress(s);
    if let Some(c) = spec_next(s).1 {
        if c != RIGHT_CURLY_BRACKET {
            lemma_escape_braces_stop(spec_next(s).0, acc + encode(c));
        }
    }
}

/// The four-character part of an escape fails only where reading stops an
/// identifier name.
proof fn lemma_escape_digits_stop(s: StreamState, acc: Seq<u16>, k: nat)
    requires
        s.wf(),
    ensures
        !spec_escape_digits(s, acc, k).1 ==> stops_identifier(spec_escape_digits(s, acc, k).0),
    decreases k,
{
    lemma_next_progress(s);
    if k > 0 {
        if let Some(c) = spec_char(s) {
            if id_char(false, c) {
                lemma_escape_digits_stop(spec_next(s).0, acc + encode(c), (k - 1) as nat);
            }
        }
    }
}

/// A part of an identifier name that does not go on stops it, unless nothing of
/// a first part was read.
proof fn lemma_escape_or_stop(s: StreamState, start: bool)
    requires
        s.wf(),
    ensures
        ({
            let (s1, ok, part) = spec_escape_or(s, start);
            !ok && (!start || part.len() > 0) ==> stops_identifier(s1)
        }),
{
    lemma_next_progress(s);
    if let Some(c) = spec_char(s) {
        if c == REVERSE_SOLIDUS {
            if spec_char_nth(s, 1) == Some(LATIN_SMALL_LETTER_U) {
                let s0 = spec_next(s).0;
                lemma_next_progress(s0);
                let s1 = spec_next(s0).0;
                lemma_next_progress(s1);
                let acc = encode(REVERSE_SOLIDUS) + encode(LATIN_SMALL_LETTER_U);
                if spec_char(s1) == Some(LEFT_CURLY_BRACKET) {
                    lemma_escape_braces_stop(spec_next(s1).0, acc + encode(LEFT_CURLY_BRACKET));
                } else {
                    lemma_escape_digits_stop(s1, acc, 4);
                }
            }
        }
    }
}

/// The rest of an identifier name is read as far as it goes.
proof fn lemma_identifier_rest_stop(s: StreamState, acc: Seq<u16>)
    requires
        s.wf(),
    ensures
        stops_identifier(spec_identifier_rest(s, acc).0),
    decreases s.remaining(),
{
    lemma_escape_or(s, false);
    lemma_escape_or_stop(s, false);
    let (s1, ok, part) = spec_escape_or(s, false);
    if ok {
        lemma_identifier_rest_stop(s1, acc + part);
    }
}

/// An identifier name is read as far as it goes: once anything is read, reading
/// stops only at the end of the text, at a reverse solidus, or at a code point
/// without the property ID_Continue, so no ID_Continue code point is left
/// behind it. And nothing is read only where no identifier name can start: at
/// the end of the text, at a code point without the property ID_Start, or at a
/// reverse solidus that no `u` follows.
pub proof fn law_identifier_name_is_maximal(s: StreamState)
    requires
        s.wf(),
    ensures
        spec_identifier_name(s).1.len() > 0 ==> stops_identifier(spec_identifier_name(s).0),
        spec_identifier_name(s).1.len() == 0 ==> spec_identifier_name(s).0 == s && match spec_char(
            s,
        ) {
            None => true,
            Some(c) => if c == REVERSE_SOLIDUS {
                spec_char_nth(s, 1) != Some(LATIN_SMALL_LETTER_U)
            } else {
                !id_char(true, c)
            },
        },
{
    lemma_escape_or(s, true);
    lemma_escape_or_stop(s, true);
    let (s1, ok, part) = spec_escape_or(s, true);
    if ok {
        lemma_identifier_rest_stop(s1, part);
        assert(part.len() > 0) by {
            lemma_part_nonempty(s, true);
        }
        assert(spec_identifier_rest(s1, part).1.len() >= part.len()) by {
            lemma_identifier_rest_grows(s1, part);
        }
    } else {
        lemma_part_nonempty(s, true);
    }
}

/// A part of an identifier name that goes on has read something, and a unicode
/// escape at a reverse solidus followed by `u` reads something too.
proof fn lemma_part_nonempty(s: StreamState, start: bool)
    requires
        s.wf(),
    ensures
        ({
            let (s1, ok, part) = spec_escape_or(s, start);
            &&& ok ==> part.len() > 0
            &&& part.len() == 0 ==> s1 == s
            &&& (spec_char(s) == Some(REVERSE_SOLIDUS) && spec_char_nth(s, 1) == Some(
                LATIN_SMALL_LETTER_U)) ==> part.len() > 0
        }),
{
    lemma_next_progress(s);
    if let Some(c) = spec_char(s) {
        if c == REVERSE_SOLIDUS && spec_char_nth(s, 1) == Some(LATIN_SMALL_LETTER_U) {
            let s0 = spec_next(s).0;
            let s1 = spec_next(s0).0;
            let acc = encode(REVERSE_SOLIDUS) + encode(LATIN_SMALL_LETTER_U);
            assert(acc.len() == 2);
            if spec_char(s1) == Some(LEFT_CURLY_BRACKET) {
                lemma_next_progress(s0);
                lemma_next_progress(s1);
                lemma_escape_braces_grows(spec_next(s1).0, acc + encode(LEFT_CURLY_BRACKET));
            } else {
                lemma_escape_digits_grows(s1, acc, 4);
            }
        }
    }
}

/// The part in curly brackets only adds to what was read.
proof fn lemma_escape_braces_grows(s: StreamState, acc: Seq<u16>)
    requires
        s.wf(),
    ensures
        spec_escape_braces(s, acc).2.len() >= acc.len(),
    decreases s.remaining(),
{
    lemma_next_progress(s);
    if let Some(c) = spec_next(s).1 {
        if c != RIGHT_CURLY_BRACKET {
            lemma_escape_braces_grows(spec_next(s).0, acc + encode(c));
        }
    }
}

/// The four-character part only adds to what was read.
proof fn lemma_escape_digits_grows(s: StreamState, acc: Seq<u16>, k: nat)
    requires
        s.wf(),
    ensures
        spec_escape_digits(s, acc, k).2.len() >= acc.len(),
    decreases k,
{
    lemma_next_progress(s);
    if k > 0 {
        if let Some(c) = spec_char(s) {
            if id_char(false, c) {
                lemma_escape_digits_grows(spec_next(s).0, acc + encode(c), (k - 1) as nat);
            }
        }
    }
}

/// The rest of an identifier name only adds to what was read.
proof fn lemma_identifier_rest_grows(s: StreamState, acc: Seq<u16>)
    requires
        s.wf(),
    ensures
        spec_identifier_rest(s, acc).1.len() >= acc.len(),
    decreases s.remaining(),
{
    lemma_escape_or(s, false);
    let (s1, ok, part) = spec_escape_or(s, false);
    if ok {
        lemma_identifier_rest_grows(s1, acc + part);
    }
}

/// Reads an identifier name as a token if the stream starts with one; else reads
/// nothing and gives `None`.
pub fn try_read_identifier_name(stream: &mut CharStream<'_>) -> (r: Option<TokenContent>)
    ensures
        (final(stream).state(), opt_token_view(r)) == spec_try_read_identifier_name(
            old(stream).state(),
        ),
{
    let s = read_identifier_name_string(stream);
    if !s.is_empty() {
        Some(TokenContentOf::IdentifierName(s))
    } else {
        None
    }
}

/// Reads an identifier name; the result is empty if the stream does not start with
/// one.
pub fn read_identifier_name_string(stream: &mut CharStream<'_>) -> (r: EsString)
    ensures
        (final(stream).state(), r@) == spec_identifier_name(old(stream).state()),
{
    let ghost s0 = stream.state();
    proof {
        use_type_invariant(&*stream);
        lemma_escape_or(s0, true);
    }
    let mut builder = EsString::new();
    if !read_unicode_escape_sequence_or(
        stream,
        &mut builder,
        is_id_start,
        Ghost(|c: char| spec_is_id_start(c)),
        Ghost(true),
    ) {
        proof {
            assert(builder@ =~= spec_escape_or(s0, true).2);
        }
        return builder;
    }
    proof {
        assert(builder@ =~= spec_escape_or(s0, true).2);
    }
    loop
        invariant
            s0 == old(stream).state(),
            stream.state().wf(),
            spec_identifier_name(s0) == spec_identifier_rest(stream.state(), builder@),
        decreases stream.state().remaining(),
    {
        let ghost prev = stream.state();
        let ghost acc = builder@;
        proof {
            lemma_escape_or(prev, false);
        }
        if !read_unicode_escape_sequence_or(
            stream,
            &mut builder,
            is_id_continue,
            Ghost(|c: char| spec_is_id_continue(c)),
            Ghost(false),
        ) {
            proof {
                assert(builder@ =~= acc + spec_escape_or(prev, false).2);
            }
            return builder;
        }
        proof {
            assert(builder@ =~= acc + spec_escape_or(prev, false).2);
        }
    }
}

/// Reads one part of an identifier name onto `buf`: a unicode escape sequence, or
/// a code point that `predicate` accepts. Gives whether the name goes on.
fn read_unicode_escape_sequence_or<F: FnOnce(char) -> bool>(
    stream: &mut CharStream<'_>,
    buf: &mut EsString,
    predicate: F,
    Ghost(p): Ghost<spec_fn(char) -> bool>,
    Ghost(start): Ghost<bool>,
) -> (r: bool)
    requires
        forall|c: char| predicate.requires((c,)),
        forall|c: char, b: bool| predicate.ensures((c,), b) ==> b == p(c),
        forall|c: char|
            p(c) == if start {
                spec_is_id_start(c)
            } else {
                spec_is_id_continue(c)
            },
    ensures
        (final(stream).state(), r, final(buf)@) == ({
            let (s1, ok, part) = spec_escape_or(old(stream).state(), start);
            (s1, ok, old(buf)@ + part)
        }),
{
    let ghost b0 = buf@;
    let next = match stream.char() {
        Some(c) => c,
        None => {
            proof {
                assert(buf@ =~= b0 + Seq::<u16>::empty());
            }
            return false;
        },
    };
    if next.as_u32() == REVERSE_SOLIDUS {
        return read_unicode_escape_sequence(stream, buf);
    }
    let ok = match next.as_char() {
        Some(c) => predicate(c),
        None => false,
    };
    if ok {
        stream.next();
        buf.push_code_point(next);
        return true;
    }
    proof {
        assert(buf@ =~= b0 + Seq::<u16>::empty());
    }
    false
}

/// Reads a unicode escape sequence onto `buf`; the stream must start with a reverse
/// solidus. Gives whether the sequence is complete.
fn read_unicode_escape_sequence(stream: &mut CharStream<'_>, buf: &mut EsString) -> (r: bool)
    requires
        spec_char(old(stream).state()) == Some(REVERSE_SOLIDUS),
    ensures
        (final(stream).state(), r, final(buf)@) == ({
            let (s1, ok, part) = spec_unicode_escape(old(stream).state());
            (s1, ok, old(buf)@ + part)
        }),
{
    let ghost s0 = stream.state();
    let ghost b0 = buf@;
    let second = stream.char_nth(1);
    let is_u = match second {
        Some(cp) => cp.as_u32() == LATIN_SMALL_LETTER_U,
        None => false,
    };
    if !is_u {
        proof {
            assert(buf@ =~= b0 + Seq::<u16>::empty());
        }
        return false;
    }
    stream.next();
    buf.push_code_point(CodePoint::from_char('\\'));
    stream.next();
    buf.push_code_point(CodePoint::from_char('u'));
    let ghost acc = encode(REVERSE_SOLIDUS) + encode(LATIN_SMALL_LETTER_U);
    proof {
        assert(buf@ =~= b0 + acc);
        use_type_invariant(&*stream);
    }

    if stream.next_if_eq(CodePoint::from_char('{')).is_some() {
        buf.push_code_point(CodePoint::from_char('{'));
        let ghost acc2 = acc + encode(LEFT_CURLY_BRACKET);
        proof {
            assert(buf@ =~= b0 + acc2);
            assert(buf@.subrange(b0.len() as int, buf@.len() as int) =~= acc2);
            assert(b0 =~= buf@.subrange(0, b0.len() as int));
        }
        loop
            invariant
                s0 == old(stream).state(),
                b0 == old(buf)@,
                stream.state().wf(),
                spec_unicode_escape(s0) == spec_escape_braces(
                    stream.state(),
                    buf@.subrange(b0.len() as int, buf@.len() as int),
                ),
                b0 == buf@.subrange(0, b0.len() as int),
                b0.len() <= buf@.len(),
            decreases stream.state().remaining(),
        {
            proof {
                use_type_invariant(&*stream);
                lemma_next_progress(stream.state());
            }
            let ghost prev = stream.state();
            let ghost before = buf@;
            let ghost sub = before.subrange(b0.len() as int, before.len() as int);
            match stream.next() {
                Some(cp) => {
                    buf.push_code_point(cp);
                    proof {
                        assert(buf@.subrange(b0.len() as int, buf@.len() as int) =~= sub + encode(
                            cp@,
                        ));
                        assert(b0 =~= buf@.subrange(0, b0.len() as int));
                    }
                    if cp.as_u32() == RIGHT_CURLY_BRACKET {
                        proof {
                            assert(spec_escape_braces(prev, sub) == (
                                stream.state(),
                                true,
                                sub + encode(cp@),
                            ));
                            assert(buf@ =~= b0 + buf@.subrange(b0.len() as int, buf@.len() as int));
                        }
                        return true;
                    }
                    proof {
                        assert(spec_escape_braces(prev, sub) == spec_escape_braces(
                            stream.state(),
                            sub + encode(cp@),
                        ));
                    }
                },
                None => {
                    proof {
                        assert(spec_escape_braces(prev, sub) == (stream.state(), false, sub));
                        assert(buf@ =~= b0 + buf@.subrange(b0.len() as int, buf@.len() as int));
                    }
                    return false;
                },
            }
        }
    }
    proof {
        assert(buf@.subrange(b0.len() as int, buf@.len() as int) =~= acc);
    }
    let mut k: usize = 0;
    while k < 4
        invariant
            s0 == old(stream).state(),
            b0 == old(buf)@,
            k <= 4,
            stream.state().wf(),
            spec_unicode_escape(s0) == spec_escape_digits(
                stream.state(),
                buf@.subrange(b0.len() as int, buf@.len() as int),
                (4 - k) as nat,
            ),
            b0 == buf@.subrange(0, b0.len() as int),
            b0.len() <= buf@.len(),
        decreases 4 - k,
    {
        let ghost before = buf@;
        let ghost prev = stream.state();
        let ghost sub = before.subrange(b0.len() as int, before.len() as int);
        let cp = match stream.next_if(is_id_continue_code_point) {
            Some(cp) => cp,
            None => {
                proof {
                    assert(spec_escape_digits(prev, sub, (4 - k) as nat) == (prev, false, sub));
                    assert(buf@ =~= b0 + buf@.subrange(b0.len() as int, buf@.len() as int));
                }
                return false;
            },
        };
        buf.push_code_point(cp);
        proof {
            assert(buf@.subrange(b0.len() as int, buf@.len() as int) =~= before.subrange(
                b0.len() as int,
                before.len() as int,
            ) + encode(cp@));
            assert(b0 =~= buf@.subrange(0, b0.len() as int));
            assert(spec_escape_digits(prev, sub, (4 - k) as nat) == spec_escape_digits(
                stream.state(),
                sub + encode(cp@),
                (4 - k - 1) as nat,
            ));
        }
        k = k + 1;
    }
    proof {
        assert(buf@ =~= b0 + buf@.subrange(b0.len() as int, buf@.len() as int));
    }
    true
}

} // verus!
