//! Verified Base58 encoding: the 58-character alphabet that omits the
//! visually ambiguous `0`, `O`, `I` and `l`.
//!
//! The encoding of a payload is pinned down by `b58_encodes`: one `'1'`
//! per leading zero byte, followed by the canonical base-58 numeral of
//! the payload's big-endian value. That characterization determines the
//! string (and the payload) uniquely, which `lemma_b58_unique` proves.

use vstd::prelude::*;
use crate::bytevals::{
    be_val, bytes_to_vec, le_val, leading_zeros, no_leading_zero, pow58, pow256,
    lemma_be_val_of_reversed, lemma_be_val_skip_zeros, lemma_be_val_take_step,
    lemma_be_val_zero, lemma_be_val_injective, lemma_le_val_push, lemma_le_val_take_step,
    lemma_leading_zeros_bounds, lemma_pow58_pos,
};
use crate::textcodec::ascii_to_string;
use vstd::string::StrSliceExecFns;

verus! {

/// The digit value of a code point in the Base58 alphabet; -1 for a
/// code point outside it.
pub open spec fn b58_val_of_code(u: int) -> int {
    if 49 <= u <= 57 { u - 49 }            // '1'..'9'  -> 0..8
    else if 65 <= u <= 72 { u - 65 + 9 }   // 'A'..'H'  -> 9..16
    else if 74 <= u <= 78 { u - 74 + 17 }  // 'J'..'N'  -> 17..21
    else if 80 <= u <= 90 { u - 80 + 22 }  // 'P'..'Z'  -> 22..32
    else if 97 <= u <= 107 { u - 97 + 33 } // 'a'..'k'  -> 33..43
    else if 109 <= u <= 122 { u - 109 + 44 } // 'm'..'z' -> 44..57
    else { -1 }
}

/// The digit value of a character; -1 when it is not a Base58 digit.
pub open spec fn b58_char_val(c: char) -> int {
    b58_val_of_code(c as u32 as int)
}

/// The code point of a Base58 digit.
pub open spec fn b58_code_of(d: int) -> int {
    if 0 <= d <= 8 { 49 + d }
    else if 9 <= d <= 16 { 65 + (d - 9) }
    else if 17 <= d <= 21 { 74 + (d - 17) }
    else if 22 <= d <= 32 { 80 + (d - 22) }
    else if 33 <= d <= 43 { 97 + (d - 33) }
    else if 44 <= d <= 57 { 109 + (d - 44) }
    else { -1 }
}

/// The value of a digit string read as a big-endian base-58 number.
pub open spec fn bv58(s: Seq<char>) -> int
    decreases s.len(),
{
    if s.len() == 0 {
        0
    } else {
        bv58(s.drop_last()) * 58 + b58_char_val(s.last())
    }
}

/// The value of a little-endian list of base-58 digits.
pub open spec fn lv58(d: Seq<u8>) -> int
    decreases d.len(),
{
    if d.len() == 0 {
        0
    } else {
        d[0] + 58 * lv58(d.skip(1))
    }
}

/// What it means for `s` to be the Base58 encoding of `payload`:
/// one `'1'` (the zero digit) per leading zero byte, then the canonical
/// numeral — valid digits, no leading zero digit — of the payload's
/// big-endian value.
pub open spec fn b58_encodes(payload: Seq<u8>, s: Seq<char>) -> bool {
    let z = leading_zeros(payload);
    &&& s.len() >= z
    &&& forall|i: int| 0 <= i < z ==> b58_char_val(s[i]) == 0
    &&& forall|i: int| z <= i < s.len() ==> b58_char_val(s[i]) >= 0
    &&& (s.len() > z ==> b58_char_val(s[z]) > 0)
    &&& bv58(s.skip(z)) == be_val(payload)
}

/// Encoding and decoding the alphabet are inverse.
proof fn lemma_code_roundtrip(d: int)
    requires
        0 <= d < 58,
    ensures
        b58_val_of_code(b58_code_of(d)) == d,
{
}

/// Appending a digit to a little-endian list adds it at the next power.
proof fn lemma_lv58_push(d: Seq<u8>, r: u8)
    ensures
        lv58(d.push(r)) == lv58(d) + r * pow58(d.len()),
    decreases d.len(),
{
    let p = d.push(r);
    if d.len() == 0 {
        assert(p.len() == 1);
        assert(p[0] == r);
        assert(p.skip(1) =~= Seq::<u8>::empty());
        assert(lv58(p.skip(1)) == 0);
        assert(lv58(p) == p[0] + 58 * lv58(p.skip(1)));
        assert(pow58(0) == 1);
    } else {
        assert(p.len() == d.len() + 1);
        assert(p[0] == d[0]);
        assert(p.skip(1) =~= d.skip(1).push(r));
        lemma_lv58_push(d.skip(1), r);
        assert(lv58(p) == p[0] + 58 * lv58(p.skip(1)));
        assert(lv58(p.skip(1)) == lv58(d.skip(1)) + r * pow58(d.skip(1).len()));
        assert(d.skip(1).len() == (d.len() - 1) as nat);
        assert(58 * (lv58(d.skip(1)) + r * pow58((d.len() - 1) as nat))
            == 58 * lv58(d.skip(1)) + r * (58 * pow58((d.len() - 1) as nat))) by (nonlinear_arith);
        assert(pow58(d.len()) == 58 * pow58((d.len() - 1) as nat));
        assert(lv58(d) == d[0] + 58 * lv58(d.skip(1)));
    }
}

/// A big-endian digit string carries the same value as its reversed
/// little-endian digit list.
proof fn lemma_bv58_of_reversed(s: Seq<char>, d: Seq<u8>)
    requires
        s.len() == d.len(),
        forall|j: int| 0 <= j < s.len() ==> b58_char_val(s[j]) == d[d.len() - 1 - j],
    ensures
        bv58(s) == lv58(d),
    decreases s.len(),
{
    if s.len() > 0 {
        let sd = s.drop_last();
        let dd = d.skip(1);
        assert(forall|j: int| 0 <= j < sd.len() ==> b58_char_val(sd[j]) == dd[dd.len() - 1 - j]);
        lemma_bv58_of_reversed(sd, dd);
        assert(b58_char_val(s.last()) == d[0]);
    }
}

/// A payload is determined by its Base58 encoding.
pub proof fn lemma_b58_unique(p1: Seq<u8>, p2: Seq<u8>, s: Seq<char>)
    requires
        b58_encodes(p1, s),
        b58_encodes(p2, s),
    ensures
        p1 =~= p2,
{
    let z1 = leading_zeros(p1);
    let z2 = leading_zeros(p2);
    lemma_leading_zeros_bounds(p1);
    lemma_leading_zeros_bounds(p2);
    if z1 < z2 {
        assert(b58_char_val(s[z1]) == 0);
        assert(b58_char_val(s[z1]) > 0);
    }
    if z2 < z1 {
        assert(b58_char_val(s[z2]) == 0);
        assert(b58_char_val(s[z2]) > 0);
    }
    let z = z1;
    let r1 = p1.skip(z);
    let r2 = p2.skip(z);
    lemma_be_val_skip_zeros(p1, z);
    lemma_be_val_skip_zeros(p2, z);
    assert(no_leading_zero(r1));
    assert(no_leading_zero(r2));
    assert(be_val(r1) == be_val(r2));
    lemma_be_val_injective(r1, r2);
    assert(p1.len() == z + r1.len());
    assert(p2.len() == z + r2.len());
    assert(forall|i: int| 0 <= i < z ==> p1[i] == 0 && p2[i] == 0);
    assert(forall|i: int| z <= i < p1.len() ==> p1[i] == r1[i - z] && p2[i] == r2[i - z]);
}

/// True exactly when every byte of the vector is zero.
fn all_zero(v: &Vec<u8>) -> (r: bool)
    ensures
        r <==> be_val(v@) == 0,
{
    let mut i: usize = 0;
    while i < v.len()
        invariant
            0 <= i <= v@.len(),
            forall|j: int| 0 <= j < i ==> v@[j] == 0,
        decreases v@.len() - i,
    {
        if v[i] != 0 {
            proof {
                lemma_be_val_zero(v@);
            }
            return false;
        }
        i = i + 1;
    }
    proof {
        lemma_be_val_zero(v@);
    }
    true
}

/// Divides the big-endian number in `v` by 58 in place, returning the
/// remainder.
fn div58_in_place(v: &mut Vec<u8>) -> (rem: u8)
    ensures
        final(v)@.len() == old(v)@.len(),
        rem < 58,
        be_val(old(v)@) == be_val(final(v)@) * 58 + rem,
{
    let ghost orig: Seq<u8> = v@;
    let mut carry: u16 = 0;
    let mut i: usize = 0;
    while i < v.len()
        invariant
            v@.len() == orig.len(),
            0 <= i <= v@.len(),
            carry < 58,
            forall|j: int| i <= j < v@.len() ==> v@[j] == orig[j],
            be_val(orig.take(i as int)) == be_val(v@.take(i as int)) * 58 + carry,
        decreases v@.len() - i,
    {
        let ghost before: Seq<u8> = v@;
        let ghost c0: u16 = carry;
        let cur: u16 = carry * 256 + (v[i] as u16);
        let q: u8 = (cur / 58) as u8;
        v.set(i, q);
        carry = cur % 58;
        proof {
            assert(v@.take(i as int) =~= before.take(i as int));
            lemma_be_val_take_step(orig, i as int);
            lemma_be_val_take_step(v@, i as int);
            assert(v@[i as int] == q);
            assert(cur == c0 * 256 + orig[i as int]);
            assert(cur == 58 * (cur as int / 58) + cur as int % 58);
            assert(q == cur as int / 58);
            assert(be_val(orig.take(i + 1)) == be_val(orig.take(i as int)) * 256 + orig[i as int]);
            assert(be_val(orig.take(i as int)) * 256
                == (be_val(before.take(i as int)) * 58 + c0) * 256) by {
                assert(be_val(orig.take(i as int)) == be_val(before.take(i as int)) * 58 + c0);
            }
            assert((be_val(before.take(i as int)) * 58 + c0) * 256
                == be_val(before.take(i as int)) * 58 * 256 + c0 * 256) by (nonlinear_arith);
            assert(be_val(v@.take(i + 1)) == be_val(before.take(i as int)) * 256 + q);
            assert((be_val(before.take(i as int)) * 256 + q) * 58
                == be_val(before.take(i as int)) * 58 * 256 + 58 * q) by (nonlinear_arith);
            assert(be_val(orig.take(i + 1)) == be_val(v@.take(i + 1)) * 58 + cur as int % 58);
        }
        i = i + 1;
    }
    proof {
        assert(orig.take(orig.len() as int) =~= orig);
        assert(v@.take(v@.len() as int) =~= v@);
    }
    carry as u8
}

/// The byte of the Base58 digit `d` in the alphabet.
fn b58_digit_byte(d: u8) -> (r: u8)
    requires
        d < 58,
    ensures
        r as int == b58_code_of(d as int),
        r < 128,
{
    if d <= 8 {
        49 + d
    } else if d <= 16 {
        65 + (d - 9)
    } else if d <= 21 {
        74 + (d - 17)
    } else if d <= 32 {
        80 + (d - 22)
    } else if d <= 43 {
        97 + (d - 33)
    } else {
        109 + (d - 44)
    }
}

/// The digit value of a character, or `None` outside the alphabet.
fn b58_char_digit(c: char) -> (r: Option<u8>)
    ensures
        r.is_some() == (b58_char_val(c) >= 0),
        r matches Some(d) ==> d as int == b58_char_val(c) && d < 58,
{
    let u = c as u32;
    if 49 <= u && u <= 57 {
        Some((u - 49) as u8)
    } else if 65 <= u && u <= 72 {
        Some((u - 65 + 9) as u8)
    } else if 74 <= u && u <= 78 {
        Some((u - 74 + 17) as u8)
    } else if 80 <= u && u <= 90 {
        Some((u - 80 + 22) as u8)
    } else if 97 <= u && u <= 107 {
        Some((u - 97 + 33) as u8)
    } else if 109 <= u && u <= 122 {
        Some((u - 109 + 44) as u8)
    } else {
        None
    }
}

/// Multiplies the little-endian number in `v` by 58 and adds a digit,
/// keeping the top byte nonzero.
fn mul58_add(v: &mut Vec<u8>, d: u8)
    requires
        d < 58,
        old(v)@.len() == 0 || old(v)@.last() != 0,
    ensures
        final(v)@.len() == 0 || final(v)@.last() != 0,
        le_val(final(v)@) == le_val(old(v)@) * 58 + d,
{
    let ghost orig: Seq<u8> = v@;
    let mut carry: u16 = d as u16;
    proof {
        assert(v@.take(0) =~= Seq::<u8>::empty());
        assert(le_val(v@.take(0)) == 0);
        assert(pow256(0) == 1);
    }
    let mut i: usize = 0;
    while i < v.len()
        invariant
            v@.len() == orig.len(),
            0 <= i <= v@.len(),
            carry <= 57,
            orig.len() == 0 || orig.last() != 0,
            forall|j: int| i <= j < v@.len() ==> v@[j] == orig[j],
            le_val(v@.take(i as int)) + carry * pow256(i as nat) == le_val(orig.take(i as int))
                * 58 + d,
            (i == orig.len() && orig.len() > 0) ==> (carry > 0 || v@[i - 1] != 0),
        decreases v@.len() - i,
    {
        let ghost before: Seq<u8> = v@;
        let ghost c0: u16 = carry;
        let cur: u16 = (v[i] as u16) * 58 + carry;
        v.set(i, (cur % 256) as u8);
        carry = cur / 256;
        proof {
            assert(v@.take(i as int) =~= before.take(i as int));
            lemma_le_val_take_step(orig, i as int);
            lemma_le_val_take_step(v@, i as int);
            assert(v@[i as int] == cur as int % 256);
            assert(cur == orig[i as int] * 58 + c0);
            assert(cur == 256 * (cur as int / 256) + cur as int % 256);
            let p = pow256(i as nat);
            assert(le_val(v@.take(i + 1)) == le_val(before.take(i as int)) + (cur as int % 256)
                * p);
            assert((cur as int / 256) * pow256((i + 1) as nat) == ((cur as int / 256) * 256)
                * p) by {
                assert(pow256((i + 1) as nat) == 256 * p);
                assert((cur as int / 256) * (256 * p) == ((cur as int / 256) * 256) * p)
                    by (nonlinear_arith);
            }
            assert((cur as int % 256) * p + ((cur as int / 256) * 256) * p == cur * p)
                by (nonlinear_arith)
                requires
                    cur == 256 * (cur as int / 256) + cur as int % 256,
            ;
            assert(cur * p == (orig[i as int] * 58) * p + c0 * p) by (nonlinear_arith)
                requires
                    cur == orig[i as int] * 58 + c0,
            ;
            assert(le_val(orig.take(i + 1)) * 58 == (le_val(orig.take(i as int))
                + orig[i as int] * p) * 58) by {
                assert(le_val(orig.take(i + 1)) == le_val(orig.take(i as int))
                    + orig[i as int] * p);
            }
            assert((le_val(orig.take(i as int)) + orig[i as int] * p) * 58
                == le_val(orig.take(i as int)) * 58 + (orig[i as int] * 58) * p)
                by (nonlinear_arith);
            if i + 1 == orig.len() {
                assert(orig[i as int] != 0);
                assert(cur >= 58);
                if cur as int / 256 == 0 {
                    assert(cur as int % 256 == cur);
                }
            }
        }
        i = i + 1;
    }
    proof {
        assert(orig.take(orig.len() as int) =~= orig);
        assert(v@.take(v@.len() as int) =~= v@);
    }
    if carry > 0 {
        let ghost before: Seq<u8> = v@;
        let top: u8 = (carry % 256) as u8;
        v.push(top);
        proof {
            lemma_le_val_push(before, top);
            assert(top == carry);
            assert(v@.last() == top);
        }
    }
}

/// Base58-decodes a string: succeeds exactly when every character is
/// in the alphabet, and then returns the unique payload the string
/// encodes.
pub fn base58_decode(s: &str) -> (r: Option<Vec<u8>>)
    ensures
        r.is_some() == (forall|i: int| 0 <= i < s@.len() ==> b58_char_val(s@[i]) >= 0),
        r matches Some(b) ==> b58_encodes(b@, s@),
{
    let n = s.unicode_len();
    let mut z: usize = 0;
    while z < n
        invariant_except_break
            0 <= z <= n,
            n == s@.len(),
            forall|i: int| 0 <= i < z ==> b58_char_val(s@[i]) == 0,
        ensures
            0 <= z <= n,
            n == s@.len(),
            forall|i: int| 0 <= i < z ==> b58_char_val(s@[i]) == 0,
            z < n ==> b58_char_val(s@[z as int]) != 0,
        decreases n - z,
    {
        let zero_digit: bool = match b58_char_digit(s.get_char(z)) {
            Some(d) => d == 0,
            None => false,
        };
        if !zero_digit {
            break;
        }
        z = z + 1;
    }
    let mut le: Vec<u8> = Vec::new();
    let mut j: usize = z;
    while j < n
        invariant
            z <= j <= n,
            n == s@.len(),
            forall|i: int| 0 <= i < z ==> b58_char_val(s@[i]) == 0,
            z < n ==> b58_char_val(s@[z as int]) != 0,
            forall|i: int| z <= i < j ==> b58_char_val(s@[i]) >= 0,
            le@.len() == 0 || le@.last() != 0,
            le_val(le@) == bv58(s@.subrange(z as int, j as int)),
        decreases n - j,
    {
        let d = match b58_char_digit(s.get_char(j)) {
            Some(d) => d,
            None => {
                proof {
                    assert(b58_char_val(s@[j as int]) < 0);
                }
                return None;
            },
        };
        let ghost le0 = le@;
        mul58_add(&mut le, d);
        proof {
            let t = s@.subrange(z as int, j + 1);
            assert(t.drop_last() =~= s@.subrange(z as int, j as int));
            assert(t.last() == s@[j as int]);
            assert(bv58(t) == bv58(t.drop_last()) * 58 + b58_char_val(t.last()));
            assert(le_val(le@) == le_val(le0) * 58 + d);
        }
        j = j + 1;
    }
    let mut out: Vec<u8> = Vec::new();
    let mut k: usize = 0;
    while k < z
        invariant
            0 <= k <= z,
            out@.len() == k,
            forall|i: int| 0 <= i < k ==> out@[i] == 0,
        decreases z - k,
    {
        out.push(0u8);
        k = k + 1;
    }
    let m = le.len();
    let mut t: usize = 0;
    while t < m
        invariant
            0 <= t <= m,
            m == le@.len(),
            out@.len() == z + t,
            forall|i: int| 0 <= i < z ==> out@[i] == 0,
            forall|i: int| 0 <= i < t ==> #[trigger] out@[z + i] == le@[m - 1 - i],
        decreases m - t,
    {
        out.push(le[m - 1 - t]);
        t = t + 1;
    }
    proof {
        let o = out@;
        let zi = z as int;
        // the leading-zero count of the output is exactly z
        lemma_leading_zeros_bounds(o);
        let lz = leading_zeros(o);
        if lz < zi {
            assert(o[lz] == 0);
        }
        if zi < lz {
            assert(zi < o.len());
            assert(m > 0);
            assert(o[zi + 0] == le@[m - 1 - 0]);
            assert(le@.last() != 0);
        }
        assert(lz == zi);
        // the value of the output is the value of the numeral part
        lemma_be_val_skip_zeros(o, zi);
        assert forall|i: int| 0 <= i < o.skip(zi).len() implies o.skip(zi)[i] == le@[m - 1
            - i] by {
            assert(o[zi + i] == le@[m - 1 - i]);
        }
        lemma_be_val_of_reversed(o.skip(zi), le@);
        assert(s@.subrange(zi, n as int) =~= s@.skip(zi));
        assert(be_val(o) == bv58(s@.skip(zi)));
        if o.len() > zi {
            assert(o[zi] != 0);
        }
        assert(b58_encodes(o, s@));
    }
    Some(out)
}

/// Base58-encodes a payload: a `'1'` per leading zero byte, then the
/// canonical base-58 numeral of the payload's big-endian value.
pub fn base58_encode(payload: &[u8]) -> (r: String)
    ensures
        b58_encodes(payload@, r@),
{
    let n = payload.len();
    let mut z: usize = 0;
    while z < n && payload[z] == 0
        invariant
            0 <= z <= n,
            n == payload@.len(),
            forall|j: int| 0 <= j < z ==> payload@[j] == 0,
        decreases n - z,
    {
        z = z + 1;
    }
    proof {
        lemma_leading_zeros_bounds(payload@);
        let lz = leading_zeros(payload@);
        if z < lz {
            assert(payload@[z as int] == 0);
        }
        if lz < z {
            assert(payload@[lz] == 0);
        }
        assert(z == lz);
    }

    let mut work: Vec<u8> = bytes_to_vec(payload);
    let mut digits: Vec<u8> = Vec::new();
    proof {
        assert(work@ == payload@);
        assert(pow58(0) == 1);
        assert(lv58(digits@) == 0);
        assert(be_val(work@) * 1 == be_val(work@)) by (nonlinear_arith);
        assert(be_val(work@) * pow58(0) + lv58(digits@) == be_val(payload@));
    }
    while !all_zero(&work)
        invariant
            be_val(work@) * pow58(digits@.len()) + lv58(digits@) == be_val(payload@),
            forall|j: int| 0 <= j < digits@.len() ==> digits@[j] < 58,
            (be_val(work@) == 0 && digits@.len() > 0) ==> digits@.last() > 0,
        decreases be_val(work@),
    {
        let ghost val0 = be_val(work@);
        let ghost digs0 = digits@;
        let rem = div58_in_place(&mut work);
        digits.push(rem);
        proof {
            let val1 = be_val(work@);
            assert(val0 == val1 * 58 + rem);
            lemma_lv58_push(digs0, rem);
            lemma_pow58_pos(digs0.len());
            assert(val1 * pow58(digs0.len() + 1) == (val1 * 58) * pow58(digs0.len()))
                by (nonlinear_arith);
            assert((val1 * 58) * pow58(digs0.len()) + rem * pow58(digs0.len())
                == (val1 * 58 + rem) * pow58(digs0.len())) by (nonlinear_arith);
            assert((val1 * 58 + rem) * pow58(digs0.len()) == val0 * pow58(digs0.len()));
            assert(be_val(work@) * pow58(digits@.len()) + lv58(digits@) == be_val(payload@));
            if val1 == 0 {
                assert(rem == val0);
                assert(rem > 0);
            }
            // the value strictly decreases while it is nonzero
            if val1 >= val0 {
                assert(val1 * 58 >= val0 * 58) by (nonlinear_arith)
                    requires val1 >= val0,
                ;
                assert(val0 * 58 >= val0 + val0 * 57) by (nonlinear_arith);
                assert(false);
            }
        }
    }
    proof {
        lemma_pow58_pos(digits@.len());
        assert(be_val(work@) == 0);
        assert(lv58(digits@) == be_val(payload@));
    }

    let mut out: Vec<u8> = Vec::new();
    let mut k: usize = 0;
    while k < z
        invariant
            0 <= k <= z,
            out@.len() == k,
            forall|j: int| 0 <= j < k ==> out@[j] == 49,
        decreases z - k,
    {
        out.push(49u8);
        k = k + 1;
    }
    let m = digits.len();
    let mut t: usize = 0;
    while t < m
        invariant
            0 <= t <= m,
            m == digits@.len(),
            forall|j: int| 0 <= j < digits@.len() ==> digits@[j] < 58,
            out@.len() == z + t,
            forall|j: int| 0 <= j < z ==> out@[j] == 49,
            forall|j: int| 0 <= j < t ==> #[trigger] out@[z + j] as int
                == b58_code_of(digits@[m - 1 - j] as int),
            forall|j: int| 0 <= j < out@.len() ==> out@[j] < 128,
        decreases m - t,
    {
        let d = digits[m - 1 - t];
        let b = b58_digit_byte(d);
        out.push(b);
        t = t + 1;
    }

    let ghost outv: Seq<u8> = out@;
    let r = ascii_to_string(out);
    proof {
        let s = r@;
        let zi = z as int;
        assert(s.len() == zi + m);
        assert forall|i: int| 0 <= i < zi implies b58_char_val(s[i]) == 0 by {
            assert(s[i] as u32 == outv[i]);
            assert(outv[i] == 49);
        }
        assert forall|i: int| zi <= i < s.len() implies b58_char_val(s[i])
            == digits@[m - 1 - (i - zi)] by {
            assert(s[i] as u32 == outv[i]);
            assert(outv[zi + (i - zi)] as int == b58_code_of(digits@[m - 1 - (i - zi)] as int));
            lemma_code_roundtrip(digits@[m - 1 - (i - zi)] as int);
        }
        if s.len() > zi {
            assert(digits@.len() > 0);
            assert(b58_char_val(s[zi]) == digits@[m - 1] as int);
            assert(digits@.last() > 0);
        }
        let tail = s.skip(zi);
        assert(tail.len() == digits@.len());
        assert(forall|j: int| 0 <= j < tail.len()
            ==> b58_char_val(tail[j]) == digits@[digits@.len() - 1 - j]);
        lemma_bv58_of_reversed(tail, digits@);
        assert(bv58(tail) == be_val(payload@));
        assert(b58_encodes(payload@, s));
    }
    r
}

} // verus!
