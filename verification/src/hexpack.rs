//! The losslessness test and the hex packing of tag values.
//!
//! A tag value qualifies for hex-packing exactly when its length is even and
//! every character is a lowercase hexadecimal digit; only such values decode
//! to bytes and re-encode to the identical string, so packing them loses
//! nothing.

use vstd::prelude::*;

verus! {

/// A lowercase hexadecimal digit: `'0'..='9'` or `'a'..='f'`.
pub open spec fn is_lower_hex_digit(c: char) -> bool {
    (48 <= c as u32 && c as u32 <= 57) || (97 <= c as u32 && c as u32 <= 102)
}

/// Every character of `s` is a lowercase hexadecimal digit.
pub open spec fn is_lower_hex_seq(s: Seq<char>) -> bool {
    forall|i: int| 0 <= i < s.len() ==> is_lower_hex_digit(#[trigger] s[i])
}

/// A value qualifies for hex-packing: even length, all lowercase hex digits.
pub open spec fn is_packable(s: Seq<char>) -> bool {
    s.len() % 2 == 0 && is_lower_hex_seq(s)
}

/// The numeric value of a lowercase hexadecimal digit.
pub open spec fn hex_digit_val(c: char) -> u8 {
    if 48 <= c as u32 && c as u32 <= 57 {
        (c as u32 - 48) as u8
    } else {
        (c as u32 - 87) as u8
    }
}

/// The lowercase hexadecimal digit for a value below sixteen.
pub open spec fn lower_hex_digit(v: u8) -> char {
    if v < 10 {
        ((v + 48) as u32) as char
    } else {
        ((v + 87) as u32) as char
    }
}

/// The bytes encoded by an even-length lowercase hexadecimal string:
/// each pair of digits becomes one byte, high digit first.
pub open spec fn spec_hex_decode(s: Seq<char>) -> Seq<u8> {
    Seq::new((s.len() / 2) as nat, |i: int|
        (hex_digit_val(s[2 * i]) as int * 16 + hex_digit_val(s[2 * i + 1]) as int) as u8)
}

/// The lowercase hexadecimal string encoding a byte sequence:
/// two digits per byte, high digit first.
pub open spec fn spec_hex_encode(b: Seq<u8>) -> Seq<char> {
    Seq::new((b.len() * 2) as nat, |i: int|
        if i % 2 == 0 {
            lower_hex_digit(b[i / 2] / 16)
        } else {
            lower_hex_digit(b[i / 2] % 16)
        })
}

/// Whether every character of `s` is a lowercase hexadecimal digit.
pub fn is_lower_hex(s: &str) -> (r: bool)
    ensures
        r == is_lower_hex_seq(s@),
{
    let n = s.unicode_len();
    for i in 0..n
        invariant
            n == s@.len(),
            forall|j: int| 0 <= j < i ==> is_lower_hex_digit(#[trigger] s@[j]),
    {
        let c = s.get_char(i);
        let v = c as u32;
        if !((48 <= v && v <= 57) || (97 <= v && v <= 102)) {
            return false;
        }
    }
    true
}

/// Relies on `hex::decode`: on an even-length string of hexadecimal digits it
/// returns `Ok` of the decoded bytes, one byte per digit pair, high digit
/// first (`FromHex for Vec<u8>` in the `hex` crate).
#[verifier::external_body]
pub(crate) fn hex_decode(s: &str) -> (r: Vec<u8>)
    requires
        is_packable(s@),
    ensures
        r@ == spec_hex_decode(s@),
{
    hex::decode(s).unwrap()
}

/// A lowercase hexadecimal digit survives the trip through its numeric value.
proof fn lemma_digit_round_trip(c: char)
    requires
        is_lower_hex_digit(c),
    ensures
        hex_digit_val(c) < 16,
        lower_hex_digit(hex_digit_val(c)) == c,
{
    let v = hex_digit_val(c);
    let u: u32 = if v < 10 { (v + 48) as u32 } else { (v + 87) as u32 };
    assert(u == c as u32);
    vstd::utf8::char_u32_cast(c, u);
}

/// Decoding a packable value and re-encoding the bytes yields the value back
/// unchanged: packing is lossless on exactly the values the test admits.
pub proof fn lemma_hex_round_trip(s: Seq<char>)
    requires
        is_packable(s),
    ensures
        spec_hex_encode(spec_hex_decode(s)) == s,
{
    broadcast use vstd::utf8::char_u32_cast;

    let d = spec_hex_decode(s);
    let e = spec_hex_encode(d);
    assert(e.len() == s.len());
    assert forall|i: int| 0 <= i < e.len() implies e[i] == s[i] by {
        assert(is_lower_hex_digit(s[i]));
        let p = 2 * (i / 2);
        assert(is_lower_hex_digit(s[p]));
        assert(is_lower_hex_digit(s[p + 1]));
        let hi = hex_digit_val(s[p]);
        let lo = hex_digit_val(s[p + 1]);
        assert(hi < 16 && lo < 16);
        assert(d[i / 2] == (hi as int * 16 + lo as int) as u8);
        assert(d[i / 2] / 16 == hi && d[i / 2] % 16 == lo) by (nonlinear_arith)
            requires
                hi < 16,
                lo < 16,
                d[i / 2] == (hi as int * 16 + lo as int) as u8,
        ;
        lemma_digit_round_trip(s[i]);
        if i % 2 == 0 {
            assert(e[i] == lower_hex_digit(hi));
        } else {
            assert(e[i] == lower_hex_digit(lo));
            assert(p + 1 == i);
        }
    }
    assert(e =~= s);
}

} // verus!
