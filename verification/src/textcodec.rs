//! Textual renderings of byte strings: lowercase hex, standard Base64
//! with padding, and the bracketed decimal form used for raw byte dumps.

use vstd::prelude::*;
use vstd::string::StringExecFns;

verus! {

/// The character for one hex digit (lowercase).
pub open spec fn hex_digit_char(d: int) -> char {
    if d == 0 { '0' } else if d == 1 { '1' } else if d == 2 { '2' }
    else if d == 3 { '3' } else if d == 4 { '4' } else if d == 5 { '5' }
    else if d == 6 { '6' } else if d == 7 { '7' } else if d == 8 { '8' }
    else if d == 9 { '9' } else if d == 10 { 'a' } else if d == 11 { 'b' }
    else if d == 12 { 'c' } else if d == 13 { 'd' } else if d == 14 { 'e' }
    else { 'f' }
}

/// The value of a hex digit character, either case; -1 for any other char.
pub open spec fn hex_char_val(c: char) -> int {
    if c == '0' { 0 } else if c == '1' { 1 } else if c == '2' { 2 }
    else if c == '3' { 3 } else if c == '4' { 4 } else if c == '5' { 5 }
    else if c == '6' { 6 } else if c == '7' { 7 } else if c == '8' { 8 }
    else if c == '9' { 9 }
    else if c == 'a' || c == 'A' { 10 } else if c == 'b' || c == 'B' { 11 }
    else if c == 'c' || c == 'C' { 12 } else if c == 'd' || c == 'D' { 13 }
    else if c == 'e' || c == 'E' { 14 } else if c == 'f' || c == 'F' { 15 }
    else { -1 }
}

/// Lowercase hex rendering: two digits per byte, no separators.
pub open spec fn spec_hex(b: Seq<u8>) -> Seq<char> {
    Seq::new(2 * b.len(), |i: int|
        if i % 2 == 0 {
            hex_digit_char(b[i / 2] as int / 16)
        } else {
            hex_digit_char(b[i / 2] as int % 16)
        })
}

/// Relies on hex::encode: lowercase hex, two digits per byte, high
/// nibble first.
#[verifier::external_body]
pub fn hex_encode(data: &[u8]) -> (r: String)
    ensures
        r@ == spec_hex(data@),
{
    hex::encode(data)
}

/// A decodable hex string: even length, hex digits only.
pub open spec fn hex_valid(s: Seq<char>) -> bool {
    s.len() % 2 == 0 && forall|i: int| 0 <= i < s.len() ==> hex_char_val(s[i]) >= 0
}

/// The bytes a hex string denotes, high nibble first.
pub open spec fn spec_hex_decode(s: Seq<char>) -> Seq<u8> {
    Seq::new(s.len() / 2, |i: int|
        (hex_char_val(s[2 * i]) * 16 + hex_char_val(s[2 * i + 1])) as u8)
}

/// Relies on hex::decode: succeeds exactly on even-length strings of hex
/// digits (either case), pairing digits high nibble first.
#[verifier::external_body]
pub fn hex_decode(s: &str) -> (r: Option<Vec<u8>>)
    ensures
        r.is_some() == hex_valid(s@),
        r matches Some(b) ==> b@ == spec_hex_decode(s@),
{
    hex::decode(s).ok()
}

/// The code point of one Base64 digit (standard alphabet).
pub open spec fn b64_code(d: int) -> int {
    if 0 <= d < 26 { 65 + d }
    else if 26 <= d < 52 { 97 + (d - 26) }
    else if 52 <= d < 62 { 48 + (d - 52) }
    else if d == 62 { 43 }
    else if d == 63 { 47 }
    else { -1 }
}

/// Standard Base64 with `=` padding (code point 61), as a sequence of
/// code points: each 3-byte group becomes 4 digits; a 1- or 2-byte tail
/// is zero-extended and padded.
pub open spec fn spec_base64_codes(b: Seq<u8>) -> Seq<int>
    decreases b.len(),
{
    if b.len() == 0 {
        Seq::empty()
    } else if b.len() == 1 {
        seq![
            b64_code(b[0] as int / 4),
            b64_code((b[0] as int % 4) * 16),
            61,
            61,
        ]
    } else if b.len() == 2 {
        seq![
            b64_code(b[0] as int / 4),
            b64_code((b[0] as int % 4) * 16 + b[1] as int / 16),
            b64_code((b[1] as int % 16) * 4),
            61,
        ]
    } else {
        seq![
            b64_code(b[0] as int / 4),
            b64_code((b[0] as int % 4) * 16 + b[1] as int / 16),
            b64_code((b[1] as int % 16) * 4 + b[2] as int / 64),
            b64_code(b[2] as int % 64),
        ] + spec_base64_codes(b.skip(3))
    }
}

/// Whether a string spells exactly the Base64 rendering of `b`,
/// compared by code point.
pub open spec fn b64_matches(s: Seq<char>, b: Seq<u8>) -> bool {
    s.len() == spec_base64_codes(b).len() && forall|i: int|
        0 <= i < s.len() ==> s[i] as u32 == spec_base64_codes(b)[i]
}

/// Relies on base64::encode: the standard alphabet with padding.
#[verifier::external_body]
pub fn base64_encode(data: &[u8]) -> (r: String)
    ensures
        b64_matches(r@, data@),
{
    base64::encode(data)
}

/// Relies on String::from_utf8: bytes below 128 decode to one char each,
/// with the same code point.
#[verifier::external_body]
pub fn ascii_to_string(bytes: Vec<u8>) -> (r: String)
    requires
        forall|i: int| 0 <= i < bytes@.len() ==> bytes@[i] < 128,
    ensures
        r@.len() == bytes@.len(),
        forall|i: int| 0 <= i < r@.len() ==> r@[i] as u32 == bytes@[i],
{
    match String::from_utf8(bytes) {
        Ok(s) => s,
        Err(_) => String::new(),
    }
}

/// The canonical decimal numeral of a nonnegative number.
pub open spec fn spec_dec_digits(v: int) -> Seq<char>
    decreases v,
{
    if v < 10 {
        seq![hex_digit_char(v)]
    } else {
        spec_dec_digits(v / 10) + seq![hex_digit_char(v % 10)]
    }
}

/// The digit characters of a little-endian digit list, most
/// significant first.
spec fn dec_rev_chars(d: Seq<u8>) -> Seq<char> {
    Seq::new(d.len(), |j: int| hex_digit_char(d[d.len() - 1 - j] as int))
}

/// Renders a number as its canonical decimal numeral.
pub fn u64_to_decimal(v: u64) -> (r: String)
    ensures
        r@ == spec_dec_digits(v as int),
{
    let mut digits: Vec<u8> = Vec::new();
    if v == 0 {
        digits.push(0u8);
        proof {
            assert(dec_rev_chars(digits@) =~= spec_dec_digits(0));
        }
    } else {
        let mut rest: u64 = v;
        while rest > 0
            invariant
                rest > 0 ==> spec_dec_digits(v as int) == spec_dec_digits(rest as int)
                    + dec_rev_chars(digits@),
                rest == 0 ==> digits@.len() > 0 && spec_dec_digits(v as int) == dec_rev_chars(
                    digits@,
                ),
                forall|j: int| 0 <= j < digits@.len() ==> digits@[j] < 10,
            decreases rest,
        {
            let ghost old_digits = digits@;
            let ghost r0 = rest as int;
            let d: u8 = (rest % 10) as u8;
            digits.push(d);
            rest = rest / 10;
            proof {
                assert(dec_rev_chars(digits@) =~= seq![hex_digit_char(d as int)]
                    + dec_rev_chars(old_digits));
                if r0 >= 10 {
                    assert(spec_dec_digits(r0) == spec_dec_digits(r0 / 10) + seq![
                        hex_digit_char(r0 % 10),
                    ]);
                    assert(spec_dec_digits(r0) + dec_rev_chars(old_digits) =~= spec_dec_digits(
                        r0 / 10,
                    ) + dec_rev_chars(digits@));
                } else {
                    assert(spec_dec_digits(r0) =~= seq![hex_digit_char(d as int)]);
                    assert(spec_dec_digits(r0) + dec_rev_chars(old_digits) =~= dec_rev_chars(
                        digits@,
                    ));
                }
            }
        }
        proof {
            if digits@.len() == 0 {
                assert(false);
            }
        }
    }
    let mut s = String::new();
    let n = digits.len();
    let mut j: usize = 0;
    while j < n
        invariant
            0 <= j <= n,
            n == digits@.len(),
            forall|i: int| 0 <= i < digits@.len() ==> digits@[i] < 10,
            s@ =~= dec_rev_chars(digits@).take(j as int),
        decreases n - j,
    {
        push_digit(&mut s, digits[n - 1 - j]);
        proof {
            assert(s@ =~= dec_rev_chars(digits@).take(j + 1));
        }
        j = j + 1;
    }
    proof {
        assert(s@ =~= dec_rev_chars(digits@));
    }
    s
}

/// The decimal rendering of one byte, without leading zeros.
pub open spec fn spec_u8_dec(v: int) -> Seq<char> {
    if v < 10 {
        seq![hex_digit_char(v)]
    } else if v < 100 {
        seq![hex_digit_char(v / 10), hex_digit_char(v % 10)]
    } else {
        seq![hex_digit_char(v / 100), hex_digit_char((v / 10) % 10), hex_digit_char(v % 10)]
    }
}

/// The comma-separated decimal list inside a byte dump.
pub open spec fn spec_dec_list(b: Seq<u8>) -> Seq<char>
    decreases b.len(),
{
    if b.len() == 0 {
        Seq::empty()
    } else if b.len() == 1 {
        spec_u8_dec(b[0] as int)
    } else {
        spec_dec_list(b.drop_last()) + seq![',', ' '] + spec_u8_dec(b.last() as int)
    }
}

/// The bracketed decimal dump of a byte string, as `{:?}` renders a
/// byte vector: `[1, 2, 3]`.
pub open spec fn spec_debug_bytes(b: Seq<u8>) -> Seq<char> {
    seq!['['] + spec_dec_list(b) + seq![']']
}

/// Appends one decimal digit character.
fn push_digit(s: &mut String, d: u8)
    requires
        d < 10,
    ensures
        final(s)@ == old(s)@ + seq![hex_digit_char(d as int)],
{
    proof {
        reveal_strlit("0");
        reveal_strlit("1");
        reveal_strlit("2");
        reveal_strlit("3");
        reveal_strlit("4");
        reveal_strlit("5");
        reveal_strlit("6");
        reveal_strlit("7");
        reveal_strlit("8");
        reveal_strlit("9");
    }
    match d {
        0 => s.append("0"),
        1 => s.append("1"),
        2 => s.append("2"),
        3 => s.append("3"),
        4 => s.append("4"),
        5 => s.append("5"),
        6 => s.append("6"),
        7 => s.append("7"),
        8 => s.append("8"),
        _ => s.append("9"),
    }
    proof {
        assert(s@ =~= old(s)@ + seq![hex_digit_char(d as int)]);
    }
}

/// Appends the decimal rendering of one byte.
fn push_u8_decimal(s: &mut String, v: u8)
    ensures
        final(s)@ == old(s)@ + spec_u8_dec(v as int),
{
    if v >= 100 {
        push_digit(s, v / 100);
        push_digit(s, (v / 10) % 10);
        push_digit(s, v % 10);
        proof {
            assert(s@ =~= old(s)@ + spec_u8_dec(v as int));
        }
    } else if v >= 10 {
        push_digit(s, v / 10);
        push_digit(s, v % 10);
        proof {
            assert(s@ =~= old(s)@ + spec_u8_dec(v as int));
        }
    } else {
        push_digit(s, v);
    }
}

/// Renders bytes the way `{:?}` renders a byte vector: `[37, 0, 255]`.
pub fn debug_bytes(b: &[u8]) -> (r: String)
    ensures
        r@ == spec_debug_bytes(b@),
{
    proof {
        reveal_strlit("[");
        reveal_strlit("]");
        reveal_strlit(", ");
    }
    let mut s = String::from_str("[");
    proof {
        assert(s@ =~= seq!['['] + spec_dec_list(b@.take(0)));
    }
    let mut i: usize = 0;
    while i < b.len()
        invariant
            0 <= i <= b@.len(),
            s@ == seq!['['] + spec_dec_list(b@.take(i as int)),
        decreases b@.len() - i,
    {
        proof {
            reveal_strlit(", ");
        }
        if i > 0 {
            s.append(", ");
        }
        push_u8_decimal(&mut s, b[i]);
        proof {
            let t = b@.take(i + 1 as int);
            assert(t.drop_last() =~= b@.take(i as int));
            assert(t.last() == b@[i as int]);
            if i == 0 {
                assert(s@ =~= seq!['['] + spec_dec_list(t));
            } else {
                assert(s@ =~= seq!['['] + spec_dec_list(t));
            }
        }
        i = i + 1;
    }
    s.append("]");
    proof {
        assert(b@.take(b@.len() as int) =~= b@);
        assert(s@ =~= spec_debug_bytes(b@));
    }
    s
}

} // verus!
