//! ASCII text helpers: identifier alphabet, case folding, and decimal
//! conversions used by the configuration layer.

use vstd::prelude::*;
use vstd::string::StringSliceAdditionalSpecFns;
use vstd::string::StrSliceExecFns;
use vstd::string::StringExecFns;

verus! {

/// A lowercase ASCII letter, the only alphabet identifiers are drawn from.
pub open spec fn is_lower_alpha(c: char) -> bool {
    'a' <= c && c <= 'z'
}

/// An ASCII decimal digit.
pub open spec fn is_dec_digit(c: char) -> bool {
    '0' <= c && c <= '9'
}

/// ASCII-only case folding of one character: uppercase ASCII letters map to
/// their lowercase counterpart, every other character is kept.
pub open spec fn lower_char(c: char) -> char {
    if 'A' <= c && c <= 'Z' {
        ((c as u32) + 32) as char
    } else {
        c
    }
}

/// ASCII-only case folding of a character sequence.
pub open spec fn lower_chars(s: Seq<char>) -> Seq<char> {
    s.map_values(|c: char| lower_char(c))
}

/// ASCII-only upcasing of one character: lowercase ASCII letters map to
/// their uppercase counterpart, every other character is kept.
pub open spec fn upper_char(c: char) -> char {
    if 'a' <= c && c <= 'z' {
        ((c as u32) - 32) as char
    } else {
        c
    }
}

/// ASCII-only upcasing of a character sequence.
pub open spec fn upper_chars(s: Seq<char>) -> Seq<char> {
    s.map_values(|c: char| upper_char(c))
}

/// Case folding cannot tell a string from its upcased form: lowering after
/// upcasing is the same as lowering directly.
pub proof fn lemma_lower_of_upper(s: Seq<char>)
    ensures
        lower_chars(upper_chars(s)) == lower_chars(s),
{
    broadcast use vstd::utf8::char_u32_cast;

    assert forall|i: int| 0 <= i < s.len() implies lower_chars(upper_chars(s))[i] == lower_chars(
        s,
    )[i] by {
        let c = s[i];
        assert(lower_chars(upper_chars(s))[i] == lower_char(upper_char(c)));
        if 'a' <= c && c <= 'z' {
            let u = ((c as u32) - 32) as char;
            assert(u as u32 == (c as u32) - 32) by {
                vstd::utf8::char_is_scalar(c);
            }
            assert(lower_char(u) as u32 == c as u32);
        }
    }
    assert(lower_chars(upper_chars(s)) =~= lower_chars(s));
}

/// A valid paste identifier: non-empty, lowercase ASCII letters only.
pub open spec fn valid_id(s: Seq<char>) -> bool {
    &&& s.len() > 0
    &&& forall|i: int| 0 <= i < s.len() ==> is_lower_alpha(#[trigger] s[i])
}

/// Folding to lowercase leaves a valid identifier unchanged.
pub proof fn lemma_lower_chars_of_valid_id(s: Seq<char>)
    requires
        valid_id(s),
    ensures
        lower_chars(s) == s,
{
    assert forall|i: int| 0 <= i < s.len() implies lower_chars(s)[i] == s[i] by {
        assert(is_lower_alpha(s[i]));
    }
    assert(lower_chars(s) =~= s);
}

/// Relies on `String::from_utf8`: bytes below 128 are valid UTF-8 and decode
/// to the characters with the same code points.
#[verifier::external_body]
pub(crate) fn ascii_bytes_to_string(v: Vec<u8>) -> (r: String)
    requires
        forall|i: int| 0 <= i < v@.len() ==> v@[i] < 128,
    ensures
        r@ == v@.map_values(|b: u8| b as char),
{
    String::from_utf8(v).unwrap()
}

/// ASCII-only case folding of an ASCII string, as a new `String`.
pub fn lower_ascii_str(s: &str) -> (r: String)
    requires
        s.is_ascii(),
    ensures
        r@ == lower_chars(s@),
{
    broadcast use vstd::string::is_ascii_spec_bytes;

    let bytes = s.as_bytes_vec();
    let mut out: Vec<u8> = Vec::new();
    let n = bytes.len();
    let mut i: usize = 0;
    while i < n
        invariant
            n == bytes@.len(),
            bytes@ == s.spec_bytes(),
            s.is_ascii(),
            bytes@ =~= Seq::new(s@.len(), |k: int| s@.index(k) as u8),
            i <= n,
            out@.len() == i,
            forall|k: int| 0 <= k < i ==> out@[k] < 128,
            forall|k: int| 0 <= k < i ==> out@[k] as char == lower_chars(s@)[k],
        decreases n - i,
    {
        let b = bytes[i];
        assert(b == s@.index(i as int) as u8);
        assert('\0' <= s@.index(i as int) <= '\u{7f}');
        if 65 <= b && b <= 90 {
            out.push(b + 32);
        } else {
            out.push(b);
        }
        assert(out@[i as int] as char == lower_char(s@.index(i as int)));
        i += 1;
    }
    let r = ascii_bytes_to_string(out);
    assert(r@ =~= lower_chars(s@));
    r
}

/// Decimal digits of a non-negative number, as ASCII bytes, most significant
/// first, without leading zeros (`0` is written as one digit).
pub open spec fn dec_bytes(n: int) -> Seq<u8>
    decreases n,
{
    if n < 10 {
        seq![(48 + if n < 0 { 0 } else { n }) as u8]
    } else {
        dec_bytes(n / 10).push((48 + n % 10) as u8)
    }
}

/// Decimal digits of a non-negative number, as characters.
pub open spec fn dec_chars(n: int) -> Seq<char> {
    dec_bytes(n).map_values(|b: u8| b as char)
}

pub proof fn lemma_dec_bytes_ascii(n: int)
    ensures
        forall|i: int| 0 <= i < dec_bytes(n).len() ==> 48 <= #[trigger] dec_bytes(n)[i] <= 57,
    decreases n,
{
    if n >= 10 {
        lemma_dec_bytes_ascii(n / 10);
        assert forall|i: int| 0 <= i < dec_bytes(n).len() implies 48 <= #[trigger] dec_bytes(
            n,
        )[i] <= 57 by {
            if i < dec_bytes(n / 10).len() {
                assert(dec_bytes(n)[i] == dec_bytes(n / 10)[i]);
            }
        }
    }
}

/// Decimal digits of `n`, most significant first, as ASCII bytes.
pub fn u64_to_dec_vec(n: u64) -> (r: Vec<u8>)
    ensures
        r@ == dec_bytes(n as int),
    decreases n,
{
    if n < 10 {
        let mut v: Vec<u8> = Vec::new();
        v.push(48 + (n as u8));
        assert(v@ =~= dec_bytes(n as int));
        v
    } else {
        let mut v = u64_to_dec_vec(n / 10);
        v.push(48 + ((n % 10) as u8));
        assert(v@ =~= dec_bytes(n as int));
        v
    }
}

/// Decimal rendering of `n`, e.g. for building `host:port` strings.
pub fn u64_to_string(n: u64) -> (r: String)
    ensures
        r@ == dec_chars(n as int),
{
    let v = u64_to_dec_vec(n);
    proof {
        lemma_dec_bytes_ascii(n as int);
    }
    ascii_bytes_to_string(v)
}

/// Numeric value of a sequence of decimal digit characters.
pub open spec fn dec_value(s: Seq<char>) -> int
    decreases s.len(),
{
    if s.len() == 0 {
        0
    } else {
        dec_value(s.drop_last()) * 10 + (s.last() as u32 - 48)
    }
}

/// A non-empty, all-digit character sequence.
pub open spec fn is_digit_run(s: Seq<char>) -> bool {
    &&& s.len() > 0
    &&& forall|i: int| 0 <= i < s.len() ==> is_dec_digit(#[trigger] s[i])
}

/// The digit part of an integer literal: an optional leading `+` is dropped,
/// exactly as `u16::from_str` and friends treat it.
pub open spec fn digit_part(s: Seq<char>) -> Seq<char> {
    if s.len() > 0 && s[0] == '+' {
        s.skip(1)
    } else {
        s
    }
}

/// Whether `s` is a well-formed unsigned decimal literal whose value is at
/// most `max`.
pub open spec fn parses_to_max(s: Seq<char>, max: int) -> bool {
    &&& is_digit_run(digit_part(s))
    &&& dec_value(digit_part(s)) <= max
}

pub proof fn lemma_dec_value_nonneg(s: Seq<char>)
    requires
        forall|i: int| 0 <= i < s.len() ==> is_dec_digit(#[trigger] s[i]),
    ensures
        dec_value(s) >= 0,
    decreases s.len(),
{
    if s.len() > 0 {
        lemma_dec_value_nonneg(s.drop_last());
    }
}

/// A longer digit run never has a smaller value: its value only grows as
/// digits are appended.
pub proof fn lemma_dec_value_take_le(s: Seq<char>, i: int, j: int)
    requires
        forall|k: int| 0 <= k < s.len() ==> is_dec_digit(#[trigger] s[k]),
        0 <= i <= j <= s.len(),
    ensures
        dec_value(s.take(i)) <= dec_value(s.take(j)),
    decreases j - i,
{
    if i < j {
        lemma_dec_value_take_le(s, i, j - 1);
        assert(s.take(j).drop_last() =~= s.take(j - 1));
        assert(forall|k: int| 0 <= k < s.take(j - 1).len() ==> is_dec_digit(
            #[trigger] s.take(j - 1)[k],
        ));
        lemma_dec_value_nonneg(s.take(j - 1));
        assert(dec_value(s.take(j)) == dec_value(s.take(j - 1)) * 10 + (s.take(j).last() as u32
            - 48));
        assert(dec_value(s.take(j - 1)) * 10 >= dec_value(s.take(j - 1))) by (nonlinear_arith)
            requires
                dec_value(s.take(j - 1)) >= 0,
        ;
    }
}

/// Parse an unsigned decimal literal, accepting an optional leading `+` and
/// rejecting values above `max`, exactly as `from_str` for an integer type
/// whose largest value is `max`.
pub fn parse_u64_bounded(s: &str, max: u64) -> (r: Option<u64>)
    ensures
        r is Some ==> parses_to_max(s@, max as int) && r->0 as int == dec_value(digit_part(s@)),
        r is None ==> !parses_to_max(s@, max as int),
{
    broadcast use vstd::string::is_ascii_spec_bytes;

    if !s.is_ascii() {
        proof {
            let ghost sv = s@;
            if parses_to_max(sv, max as int) {
                let ghost d = digit_part(sv);
                assert forall|i: int| 0 <= i < sv.len() implies '\0' <= #[trigger] sv[i]
                    <= '\u{7f}' by {
                    if sv.len() > 0 && sv[0] == '+' {
                        if i > 0 {
                            assert(sv[i] == d[i - 1]);
                            assert(is_dec_digit(d[i - 1]));
                        }
                    } else {
                        assert(sv[i] == d[i]);
                        assert(is_dec_digit(d[i]));
                    }
                }
                assert(vstd::utf8::is_ascii_chars(sv));
            }
        }
        return None;
    }
    let bytes = s.as_bytes_vec();
    let n = bytes.len();
    proof {
        assert(bytes@ =~= Seq::new(s@.len(), |k: int| s@.index(k) as u8));
    }
    let mut i: usize = 0;
    if n > 0 && bytes[0] == 43 {
        assert(s@[0] == '+');
        i = 1;
    }
    let start: usize = i;
    let ghost d = digit_part(s@);
    proof {
        assert(d =~= s@.skip(start as int));
    }
    if i == n {
        // empty digit part
        assert(!is_digit_run(d));
        return None;
    }
    let mut value: u64 = 0;
    while i < n
        invariant
            s.is_ascii(),
            start <= i <= n,
            n == bytes@.len(),
            bytes@ =~= Seq::new(s@.len(), |k: int| s@.index(k) as u8),
            d == digit_part(s@),
            d =~= s@.skip(start as int),
            forall|k: int| 0 <= k < i - start ==> is_dec_digit(#[trigger] d[k]),
            value <= max,
            value as int == dec_value(d.take(i - start)),
        decreases n - i,
    {
        let b = bytes[i];
        assert(b == s@[i as int] as u8);
        assert('\0' <= s@[i as int] <= '\u{7f}');
        if b < 48 || b > 57 {
            assert(d[i - start] == s@[i as int]);
            assert(!is_dec_digit(d[i - start]));
            return None;
        }
        let digit: u64 = (b - 48) as u64;
        assert(d[i - start] == s@[i as int]);
        assert(is_dec_digit(d[i - start]));
        assert(d.take(i - start + 1).drop_last() =~= d.take(i - start));
        assert(dec_value(d.take(i - start + 1)) == dec_value(d.take(i - start)) * 10 + digit);
        if digit > max || value > (max - digit) / 10 {
            proof {
                if digit > max {
                    assert(value * 10 >= 0) by (nonlinear_arith)
                        requires
                            value >= 0,
                    ;
                } else {
                    assert(value * 10 >= ((max - digit) / 10 + 1) * 10) by (nonlinear_arith)
                        requires
                            value >= (max - digit) / 10 + 1,
                    ;
                    assert(((max - digit) / 10 + 1) * 10 > max - digit);
                }
                assert(dec_value(d.take(i - start + 1)) > max);
                if parses_to_max(s@, max as int) {
                    lemma_dec_value_take_le(d, i - start + 1, d.len() as int);
                    assert(d.take(d.len() as int) =~= d);
                }
            }
            return None;
        }
        proof {
            assert(value * 10 + digit <= ((max - digit) / 10) * 10 + digit) by (nonlinear_arith)
                requires
                    value <= (max - digit) / 10,
                    digit >= 0,
            ;
            assert(((max - digit) / 10) * 10 <= max - digit);
        }
        value = value * 10 + digit;
        i += 1;
    }
    proof {
        assert(d.take(i - start) =~= d);
        assert(is_digit_run(d));
    }
    Some(value)
}

/// Parse a boolean literal: exactly `true` or `false`, as `bool::from_str`.
pub fn parse_bool(s: &str) -> (r: Option<bool>)
    ensures
        r == Some(true) <==> s@ == "true"@,
        r == Some(false) <==> s@ == "false"@,
        r is None <==> s@ != "true"@ && s@ != "false"@,
{
    proof {
        reveal_strlit("true");
        reveal_strlit("false");
    }
    let owned = s.to_owned();
    if owned == String::from_str("true") {
        proof {
            // The two literals differ in length, so one match excludes the other.
            assert("true"@.len() == 4);
            assert("false"@.len() == 5);
        }
        Some(true)
    } else if owned == String::from_str("false") {
        Some(false)
    } else {
        None
    }
}

} // verus!
