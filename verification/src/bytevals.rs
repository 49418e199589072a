//! Byte sequences as big-endian numbers, and the small arithmetic
//! facts the Base58 codec and the key invariant rest on.

use vstd::prelude::*;

verus! {

/// `256^e`.
pub open spec fn pow256(e: nat) -> nat
    decreases e,
{
    if e == 0 {
        1
    } else {
        256 * pow256((e - 1) as nat)
    }
}

/// `58^e`.
pub open spec fn pow58(e: nat) -> nat
    decreases e,
{
    if e == 0 {
        1
    } else {
        58 * pow58((e - 1) as nat)
    }
}

/// The value of a byte sequence read as a big-endian number.
pub open spec fn be_val(s: Seq<u8>) -> nat
    decreases s.len(),
{
    if s.len() == 0 {
        0
    } else {
        (be_val(s.drop_last()) * 256 + s.last()) as nat
    }
}

/// How many zero bytes the sequence starts with.
pub open spec fn leading_zeros(s: Seq<u8>) -> int
    decreases s.len(),
{
    if s.len() == 0 || s[0] != 0 {
        0
    } else {
        1 + leading_zeros(s.skip(1))
    }
}

/// A big-endian numeral in canonical form: no leading zero byte.
pub open spec fn no_leading_zero(s: Seq<u8>) -> bool {
    s.len() == 0 || s[0] != 0
}

pub proof fn lemma_pow256_pos(e: nat)
    ensures
        pow256(e) >= 1,
    decreases e,
{
    if e > 0 {
        lemma_pow256_pos((e - 1) as nat);
    }
}

pub proof fn lemma_pow58_pos(e: nat)
    ensures
        pow58(e) >= 1,
    decreases e,
{
    if e > 0 {
        lemma_pow58_pos((e - 1) as nat);
    }
}

/// Extending a big-endian numeral by one byte multiplies by 256 and adds it.
pub proof fn lemma_be_val_take_step(s: Seq<u8>, i: int)
    requires
        0 <= i < s.len(),
    ensures
        be_val(s.take(i + 1)) == be_val(s.take(i)) * 256 + s[i],
{
    assert(s.take(i + 1).drop_last() =~= s.take(i));
    assert(s.take(i + 1).last() == s[i]);
}

/// A numeral is zero exactly when every byte is zero.
pub proof fn lemma_be_val_zero(s: Seq<u8>)
    ensures
        be_val(s) == 0 <==> (forall|i: int| 0 <= i < s.len() ==> s[i] == 0),
    decreases s.len(),
{
    if s.len() > 0 {
        lemma_be_val_zero(s.drop_last());
        if be_val(s) == 0 {
            assert(forall|i: int| 0 <= i < s.len() - 1 ==> s[i] == s.drop_last()[i]);
        } else {
            if forall|i: int| 0 <= i < s.len() ==> s[i] == 0 {
                assert(forall|i: int| 0 <= i < s.drop_last().len() ==> s.drop_last()[i] == 0);
                assert(s.last() == 0);
            }
        }
    }
}

/// Every numeral of `n` bytes is below `256^n`.
pub proof fn lemma_be_val_upper(s: Seq<u8>)
    ensures
        be_val(s) < pow256(s.len()),
    decreases s.len(),
{
    if s.len() == 0 {
    } else {
        lemma_be_val_upper(s.drop_last());
        assert(be_val(s.drop_last()) <= pow256((s.len() - 1) as nat) - 1);
        assert(be_val(s.drop_last()) * 256 <= (pow256((s.len() - 1) as nat) - 1) * 256)
            by (nonlinear_arith)
            requires
                be_val(s.drop_last()) <= pow256((s.len() - 1) as nat) - 1,
        ;
    }
}

/// A canonical nonempty numeral of `n` bytes is at least `256^(n-1)`.
pub proof fn lemma_be_val_lower(s: Seq<u8>)
    requires
        s.len() > 0,
        s[0] != 0,
    ensures
        be_val(s) >= pow256((s.len() - 1) as nat),
    decreases s.len(),
{
    if s.len() == 1 {
        assert(s.drop_last().len() == 0);
    } else {
        assert(s.drop_last()[0] == s[0]);
        lemma_be_val_lower(s.drop_last());
        assert(be_val(s.drop_last()) * 256 >= pow256((s.len() - 2) as nat) * 256)
            by (nonlinear_arith)
            requires
                be_val(s.drop_last()) >= pow256((s.len() - 2) as nat),
        ;
    }
}

/// Canonical big-endian numerals are determined by their value.
pub proof fn lemma_be_val_injective(s1: Seq<u8>, s2: Seq<u8>)
    requires
        no_leading_zero(s1),
        no_leading_zero(s2),
        be_val(s1) == be_val(s2),
    ensures
        s1 =~= s2,
    decreases s1.len() + s2.len(),
{
    if s1.len() == 0 || s2.len() == 0 {
        if s1.len() == 0 && s2.len() > 0 {
            lemma_be_val_lower(s2);
            lemma_pow256_pos((s2.len() - 1) as nat);
        }
        if s2.len() == 0 && s1.len() > 0 {
            lemma_be_val_lower(s1);
            lemma_pow256_pos((s1.len() - 1) as nat);
        }
    } else if s1.len() < s2.len() {
        lemma_be_val_upper(s1);
        lemma_be_val_lower(s2);
        lemma_pow256_monotone(s1.len(), (s2.len() - 1) as nat);
    } else if s2.len() < s1.len() {
        lemma_be_val_upper(s2);
        lemma_be_val_lower(s1);
        lemma_pow256_monotone(s2.len(), (s1.len() - 1) as nat);
    } else {
        let q1 = be_val(s1.drop_last());
        let q2 = be_val(s2.drop_last());
        assert(q1 * 256 + s1.last() == q2 * 256 + s2.last());
        assert(q1 == q2 && s1.last() == s2.last()) by (nonlinear_arith)
            requires
                q1 * 256 + s1.last() == q2 * 256 + s2.last(),
                0 <= s1.last() < 256,
                0 <= s2.last() < 256,
        ;
        if s1.len() > 1 {
            assert(s1.drop_last()[0] == s1[0]);
            assert(s2.drop_last()[0] == s2[0]);
        }
        lemma_be_val_injective(s1.drop_last(), s2.drop_last());
        assert(s1 =~= s1.drop_last().push(s1.last()));
        assert(s2 =~= s2.drop_last().push(s2.last()));
    }
}

/// The value of a byte sequence read as a little-endian number.
pub open spec fn le_val(s: Seq<u8>) -> nat
    decreases s.len(),
{
    if s.len() == 0 {
        0
    } else {
        (s[0] + 256 * le_val(s.skip(1))) as nat
    }
}

/// Extending a little-endian numeral adds the byte at the next power.
pub proof fn lemma_le_val_take_step(s: Seq<u8>, i: int)
    requires
        0 <= i < s.len(),
    ensures
        le_val(s.take(i + 1)) == le_val(s.take(i)) + s[i] * pow256(i as nat),
    decreases i,
{
    if i == 0 {
        assert(s.take(1).skip(1) =~= Seq::<u8>::empty());
        assert(le_val(s.take(1)) == s.take(1)[0] + 256 * le_val(s.take(1).skip(1)));
        assert(s[0] * pow256(0) == s[0] * 1);
    } else {
        let t1 = s.take(i + 1);
        let t0 = s.take(i);
        assert(t1.skip(1) =~= s.skip(1).take(i));
        assert(t0.skip(1) =~= s.skip(1).take(i - 1));
        lemma_le_val_take_step(s.skip(1), i - 1);
        assert(s.skip(1)[i - 1] == s[i]);
        assert(le_val(t1) == t1[0] + 256 * le_val(s.skip(1).take(i)));
        assert(le_val(t0) == t0[0] + 256 * le_val(s.skip(1).take(i - 1)));
        assert(256 * (le_val(s.skip(1).take(i - 1)) + s[i] * pow256((i - 1) as nat))
            == 256 * le_val(s.skip(1).take(i - 1)) + s[i] * (256 * pow256((i - 1) as nat)))
            by (nonlinear_arith);
        assert(pow256(i as nat) == 256 * pow256((i - 1) as nat));
    }
}

/// Appending a byte to a little-endian numeral adds it at the top.
pub proof fn lemma_le_val_push(s: Seq<u8>, x: u8)
    ensures
        le_val(s.push(x)) == le_val(s) + x * pow256(s.len()),
    decreases s.len(),
{
    let p = s.push(x);
    if s.len() == 0 {
        assert(p.skip(1) =~= Seq::<u8>::empty());
        assert(le_val(p) == p[0] + 256 * le_val(p.skip(1)));
        assert(x * pow256(0) == x * 1);
    } else {
        assert(p.skip(1) =~= s.skip(1).push(x));
        lemma_le_val_push(s.skip(1), x);
        assert(le_val(p) == p[0] + 256 * le_val(s.skip(1).push(x)));
        assert(256 * (le_val(s.skip(1)) + x * pow256((s.len() - 1) as nat))
            == 256 * le_val(s.skip(1)) + x * (256 * pow256((s.len() - 1) as nat)))
            by (nonlinear_arith);
        assert(pow256(s.len()) == 256 * pow256((s.len() - 1) as nat));
    }
}

/// A big-endian numeral carries the same value as its reversed
/// little-endian form.
pub proof fn lemma_be_val_of_reversed(be: Seq<u8>, le: Seq<u8>)
    requires
        be.len() == le.len(),
        forall|j: int| 0 <= j < be.len() ==> be[j] == le[le.len() - 1 - j],
    ensures
        be_val(be) == le_val(le),
    decreases be.len(),
{
    if be.len() > 0 {
        let bd = be.drop_last();
        let ld = le.skip(1);
        assert(forall|j: int| 0 <= j < bd.len() ==> bd[j] == ld[ld.len() - 1 - j]);
        lemma_be_val_of_reversed(bd, ld);
        assert(be.last() == le[0]);
    }
}

/// Copies a byte slice into a fresh vector.
pub fn bytes_to_vec(b: &[u8]) -> (r: Vec<u8>)
    ensures
        r@ == b@,
{
    let mut out: Vec<u8> = Vec::new();
    let mut i: usize = 0;
    while i < b.len()
        invariant
            0 <= i <= b@.len(),
            out@ =~= b@.take(i as int),
        decreases b@.len() - i,
    {
        out.push(b[i]);
        proof {
            assert(out@ =~= b@.take(i + 1));
        }
        i = i + 1;
    }
    proof {
        assert(b@.take(b@.len() as int) =~= b@);
    }
    out
}

/// `256^a <= 256^b` when `a <= b`.
pub proof fn lemma_pow256_monotone(a: nat, b: nat)
    requires
        a <= b,
    ensures
        pow256(a) <= pow256(b),
    decreases b,
{
    if a < b {
        lemma_pow256_monotone(a, (b - 1) as nat);
        lemma_pow256_pos((b - 1) as nat);
    }
}

/// The leading-zero count is a position inside the sequence.
pub proof fn lemma_leading_zeros_bounds(s: Seq<u8>)
    ensures
        0 <= leading_zeros(s) <= s.len(),
        forall|i: int| 0 <= i < leading_zeros(s) ==> s[i] == 0,
        leading_zeros(s) < s.len() ==> s[leading_zeros(s)] != 0,
    decreases s.len(),
{
    if s.len() > 0 && s[0] == 0 {
        lemma_leading_zeros_bounds(s.skip(1));
        assert(forall|i: int| 0 <= i < leading_zeros(s.skip(1)) ==> s.skip(1)[i] == 0);
        assert(forall|i: int| 1 <= i < leading_zeros(s) ==> s[i] == s.skip(1)[i - 1]);
    }
}

/// Dropping the leading zeros does not change the value.
pub proof fn lemma_be_val_skip_zeros(s: Seq<u8>, z: int)
    requires
        0 <= z <= s.len(),
        forall|i: int| 0 <= i < z ==> s[i] == 0,
    ensures
        be_val(s) == be_val(s.skip(z)),
    decreases s.len(),
{
    if z == 0 {
        assert(s.skip(0) =~= s);
    } else {
        if z == s.len() {
            lemma_be_val_zero(s);
            lemma_be_val_zero(s.skip(z));
        } else {
            assert(forall|i: int| 0 <= i < z ==> s.drop_last()[i] == s[i]);
            lemma_be_val_skip_zeros(s.drop_last(), z);
            assert(s.skip(z).len() > 0);
            assert(s.skip(z).drop_last() =~= s.drop_last().skip(z));
            assert(s.skip(z).last() == s.last());
            assert(be_val(s.skip(z)) == be_val(s.skip(z).drop_last()) * 256 + s.skip(z).last());
        }
    }
}

} // verus!
