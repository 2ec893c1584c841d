//! The mathematical model of UTF-16: which code units are surrogates, how a code
//! point is encoded, and how a sequence of code units is decoded into code points
//! (an unpaired surrogate decodes to itself).
use vstd::prelude::*;

verus! {

/// The largest Unicode code point.
pub open spec fn max_code_point() -> u32 {
    0x10FFFF
}

/// `u` is a leading (high) surrogate: 0xD800 to 0xDBFF.
pub open spec fn is_leading_surrogate(u: u16) -> bool {
    0xD800 <= u <= 0xDBFF
}

/// `u` is a trailing (low) surrogate: 0xDC00 to 0xDFFF.
pub open spec fn is_trailing_surrogate(u: u16) -> bool {
    0xDC00 <= u <= 0xDFFF
}

/// `v` lies in the surrogate range 0xD800 to 0xDFFF.
pub open spec fn is_surrogate_value(v: u32) -> bool {
    0xD800 <= v <= 0xDFFF
}

/// The code point that a surrogate pair stands for.
pub open spec fn surrogate_pair_value(lead: u16, trail: u16) -> u32 {
    ((lead - 0xD800) * 0x400 + (trail - 0xDC00) + 0x10000) as u32
}

/// A surrogate pair starts at index `i` of `units`.
pub open spec fn pair_starts_at(units: Seq<u16>, i: int) -> bool {
    &&& 0 <= i
    &&& i + 1 < units.len()
    &&& is_leading_surrogate(units[i])
    &&& is_trailing_surrogate(units[i + 1])
}

/// The code point that starts at index `i` of `units`: a surrogate pair gives the
/// code point it encodes, any other code unit gives its own value.
pub open spec fn code_point_at(units: Seq<u16>, i: int) -> u32 {
    if pair_starts_at(units, i) {
        surrogate_pair_value(units[i], units[i + 1])
    } else {
        units[i] as u32
    }
}

/// How many code units the code point at index `i` takes.
pub open spec fn code_point_len_at(units: Seq<u16>, i: int) -> int {
    if pair_starts_at(units, i) {
        2
    } else {
        1
    }
}

/// The code points of a sequence of code units, read from the front.
pub open spec fn decode(units: Seq<u16>) -> Seq<u32>
    decreases units.len(),
{
    if units.len() == 0 {
        Seq::empty()
    } else {
        seq![code_point_at(units, 0)] + decode(units.skip(code_point_len_at(units, 0)))
    }
}

/// The number of UTF-16 code units of a code point.
pub open spec fn code_unit_count(cp: u32) -> int {
    if cp < 0x10000 {
        1
    } else {
        2
    }
}

/// The UTF-16 encoding of one code point; a code point in the surrogate range
/// encodes to itself.
pub open spec fn encode(cp: u32) -> Seq<u16> {
    if cp < 0x10000 {
        seq![cp as u16]
    } else {
        seq![
            ((cp - 0x10000) / 0x400 + 0xD800) as u16,
            ((cp - 0x10000) % 0x400 + 0xDC00) as u16,
        ]
    }
}

/// The UTF-16 encoding of a sequence of code points.
pub open spec fn encode_all(cps: Seq<u32>) -> Seq<u16>
    decreases cps.len(),
{
    if cps.len() == 0 {
        Seq::empty()
    } else {
        encode_all(cps.drop_last()) + encode(cps.last())
    }
}

/// Every code point of `cps` is at most 0x10FFFF.
pub open spec fn all_valid(cps: Seq<u32>) -> bool {
    forall|i: int| 0 <= i < cps.len() ==> #[trigger] cps[i] <= max_code_point()
}

/// No leading surrogate in `cps` is directly followed by a trailing surrogate:
/// encoding such a neighbour pair would make it read back as one code point.
pub open spec fn no_split_pairs(cps: Seq<u32>) -> bool {
    forall|i: int|
        0 <= i < cps.len() - 1 ==> !(0xD800 <= #[trigger] cps[i] <= 0xDBFF && 0xDC00 <= cps[i
            + 1] <= 0xDFFF)
}

/// The replacement character U+FFFD.
pub open spec fn replacement_char() -> char {
    '\u{FFFD}'
}

/// The text shown for a code point: itself, or U+FFFD for a surrogate.
pub open spec fn display_char(cp: u32) -> char {
    if is_surrogate_value(cp) || cp > max_code_point() {
        replacement_char()
    } else {
        cp as char
    }
}

/// The text that a sequence of code units shows: its code points, each unpaired
/// surrogate replaced by U+FFFD.
pub open spec fn display_text(units: Seq<u16>) -> Seq<char> {
    decode(units).map_values(|cp: u32| display_char(cp))
}

// ---------------------------------------------------------------------------
// Lemmas
/// A surrogate pair encodes a supplementary code point.
pub proof fn lemma_surrogate_pair_value(lead: u16, trail: u16)
    requires
        is_leading_surrogate(lead),
        is_trailing_surrogate(trail),
    ensures
        0x10000 <= surrogate_pair_value(lead, trail) <= max_code_point(),
        surrogate_pair_value(lead, trail) as int == (lead - 0xD800) * 0x400 + (trail - 0xDC00)
            + 0x10000,
        encode(surrogate_pair_value(lead, trail)) == seq![lead, trail],
{
    let a = lead - 0xD800;
    let b = trail - 0xDC00;
    assert(0 <= a * 0x400 <= 0x3FF * 0x400) by (nonlinear_arith)
        requires
            0 <= a <= 0x3FF,
    ;
    let v = a * 0x400 + b;
    assert(v / 0x400 == a && v % 0x400 == b) by (nonlinear_arith)
        requires
            v == a * 0x400 + b,
            0 <= b < 0x400,
            0 <= a,
    ;
}

/// The encoding of a code point has `code_unit_count` code units.
pub proof fn lemma_encode_len(cp: u32)
    requires
        cp <= max_code_point(),
    ensures
        encode(cp).len() == code_unit_count(cp),
        cp >= 0x10000 ==> is_leading_surrogate(encode(cp)[0]) && is_trailing_surrogate(
            encode(cp)[1],
        ),
        cp >= 0x10000 ==> surrogate_pair_value(encode(cp)[0], encode(cp)[1]) == cp,
        cp < 0x10000 ==> encode(cp)[0] == cp,
{
    if cp >= 0x10000 {
        let v = cp - 0x10000;
        assert(0 <= v / 0x400 <= 0x3FF && 0 <= v % 0x400 < 0x400 && v == (v / 0x400) * 0x400 + v
            % 0x400) by (nonlinear_arith)
            requires
                0 <= v <= 0xFFFFF,
        ;
    }
}

/// Encoding distributes over concatenation.
pub proof fn lemma_encode_all_append(a: Seq<u32>, b: Seq<u32>)
    ensures
        encode_all(a + b) == encode_all(a) + encode_all(b),
    decreases b.len(),
{
    if b.len() == 0 {
        assert(a + b == a);
    } else {
        lemma_encode_all_append(a, b.drop_last());
        assert((a + b).drop_last() == a + b.drop_last());
    }
}

/// Encoding one code point in front of others.
pub proof fn lemma_encode_all_cons(x: u32, rest: Seq<u32>)
    ensures
        encode_all(seq![x] + rest) == encode(x) + encode_all(rest),
{
    lemma_encode_all_append(seq![x], rest);
    assert(seq![x].drop_last() =~= Seq::<u32>::empty());
    assert(encode_all(Seq::<u32>::empty()) =~= Seq::<u16>::empty());
    assert(encode_all(seq![x]) =~= encode(x));
}

/// Decoding is lossless: encoding the decoded code points gives back the very
/// same code units, unpaired surrogates included.
pub proof fn lemma_encode_decode(units: Seq<u16>)
    ensures
        encode_all(decode(units)) == units,
    decreases units.len(),
{
    if units.len() > 0 {
        let n = code_point_len_at(units, 0);
        let rest = units.skip(n);
        lemma_encode_decode(rest);
        lemma_encode_all_cons(code_point_at(units, 0), decode(rest));
        if pair_starts_at(units, 0) {
            lemma_surrogate_pair_value(units[0], units[1]);
        }
        assert(units == units.take(n) + rest);
    }
}

/// Decoding the encoding of valid code points gives them back, unless a leading
/// surrogate code point stands directly before a trailing one.
pub proof fn lemma_decode_encode(cps: Seq<u32>)
    requires
        all_valid(cps),
        no_split_pairs(cps),
    ensures
        decode(encode_all(cps)) == cps,
    decreases cps.len(),
{
    if cps.len() > 0 {
        let x = cps[0];
        let rest = cps.skip(1);
        assert(cps == seq![x] + rest);
        assert(all_valid(rest));
        assert(no_split_pairs(rest)) by {
            assert forall|i: int| 0 <= i < rest.len() - 1 implies !(0xD800 <= #[trigger] rest[i]
                <= 0xDBFF && 0xDC00 <= rest[i + 1] <= 0xDFFF) by {
                assert(rest[i] == cps[i + 1]);
            }
        }
        lemma_decode_encode(rest);
        lemma_encode_all_cons(x, rest);
        lemma_encode_len(x);
        let units = encode_all(cps);
        let ex = encode(x);
        assert(units == ex + encode_all(rest));
        if x < 0x10000 {
            // a single unit; it starts a pair only if it is a leading surrogate
            // followed by a trailing one, which `no_split_pairs` rules out
            if pair_starts_at(units, 0) {
                assert(rest.len() > 0);
                let y = rest[0];
                assert(y == cps[1]);
                lemma_encode_len(y);
                lemma_encode_all_cons(y, rest.skip(1));
                assert(rest == seq![y] + rest.skip(1));
                assert(units[1] == encode(y)[0]);
                if y >= 0x10000 {
                    assert(is_leading_surrogate(encode(y)[0]));
                }
                assert(false);
            }
            assert(units.skip(1) == encode_all(rest));
        } else {
            assert(pair_starts_at(units, 0));
            assert(units.skip(2) == encode_all(rest));
        }
    }
}

/// The code point at an index is the first code point decoded from there.
pub proof fn lemma_decode_first(units: Seq<u16>, i: int)
    requires
        0 <= i < units.len(),
    ensures
        decode(units.skip(i)).len() > 0,
        decode(units.skip(i))[0] == code_point_at(units, i),
        code_point_len_at(units.skip(i), 0) == code_point_len_at(units, i),
        decode(units.skip(i)) == seq![code_point_at(units, i)] + decode(
            units.skip(i + code_point_len_at(units, i)),
        ),
{
    let s = units.skip(i);
    assert(s[0] == units[i]);
    if i + 1 < units.len() {
        assert(s[1] == units[i + 1]);
    }
    assert(s.skip(code_point_len_at(units, i)) == units.skip(i + code_point_len_at(units, i)));
}

/// Every code point that decoding yields is at most 0x10FFFF.
pub proof fn lemma_decode_valid(units: Seq<u16>)
    ensures
        all_valid(decode(units)),
    decreases units.len(),
{
    if units.len() > 0 {
        let n = code_point_len_at(units, 0);
        lemma_decode_valid(units.skip(n));
        if pair_starts_at(units, 0) {
            lemma_surrogate_pair_value(units[0], units[1]);
        }
        let d = decode(units);
        assert forall|i: int| 0 <= i < d.len() implies #[trigger] d[i] <= max_code_point() by {
            if i > 0 {
                assert(d[i] == decode(units.skip(n))[i - 1]);
            }
        }
    }
}

} // verus!
