//! Arbitrary-precision decimal literals and their fixed-width encodings:
//! big-endian magnitudes for unsigned values and two's-complement buffers
//! for signed ones.

use vstd::prelude::*;
use vstd::arithmetic::power::{
    pow,
    lemma_pow_adds,
    lemma_pow_positive,
    lemma_pow_increases,
    lemma_pow_multiplies,
};
use vstd::arithmetic::power2::pow2;
use vstd::arithmetic::div_mod::lemma_fundamental_div_mod;
use crate::errors::PackError;

verus! {

/// Whether `c` is an ASCII decimal digit.
pub open spec fn is_dec_digit(c: char) -> bool {
    48 <= c as u32 && c as u32 <= 57
}

/// The numeric value of the decimal digit `c`.
pub open spec fn dec_digit_value(c: char) -> u8 {
    if is_dec_digit(c) {
        (c as u32 - 48) as u8
    } else {
        0
    }
}

/// Whether `s` is one or more decimal digits.
pub open spec fn is_dec_digits(s: Seq<char>) -> bool {
    s.len() > 0 && forall|i: int| 0 <= i < s.len() ==> is_dec_digit(#[trigger] s[i])
}

/// The number that the digit string `s` denotes.
pub open spec fn dec_val(s: Seq<char>) -> nat
    decreases s.len(),
{
    if s.len() == 0 {
        0
    } else {
        dec_val(s.drop_last()) * 10 + dec_digit_value(s.last()) as nat
    }
}

/// The number that the big-endian byte string `b` denotes.
pub open spec fn be_val(b: Seq<u8>) -> nat
    decreases b.len(),
{
    if b.len() == 0 {
        0
    } else {
        be_val(b.drop_last()) * 256 + b.last() as nat
    }
}

/// The number that the little-endian byte string `b` denotes.
pub open spec fn le_val(b: Seq<u8>) -> nat
    decreases b.len(),
{
    if b.len() == 0 {
        0
    } else {
        b[0] as nat + le_val(b.drop_first()) * 256
    }
}

/// A little-endian limb string with no useless top limb.
pub open spec fn le_minimal(b: Seq<u8>) -> bool {
    b.len() == 0 || b[b.len() - 1] != 0
}

/// A big-endian byte string with no useless leading zero.
pub open spec fn be_minimal(b: Seq<u8>) -> bool {
    b.len() == 0 || b[0] != 0
}

/// Whether `s` begins with an explicit sign character.
pub open spec fn has_sign(s: Seq<char>) -> bool {
    s.len() > 0 && (s[0] == '-' || s[0] == '+')
}

/// The digit portion of an integer literal.
pub open spec fn literal_digits(s: Seq<char>) -> Seq<char> {
    if has_sign(s) {
        s.skip(1)
    } else {
        s
    }
}

/// Whether `s` is an integer literal: an optional sign, then decimal digits.
pub open spec fn is_int_literal(s: Seq<char>) -> bool {
    is_dec_digits(literal_digits(s))
}

/// The value of the integer literal `s`.
pub open spec fn literal_value(s: Seq<char>) -> int {
    if s.len() > 0 && s[0] == '-' {
        -(dec_val(literal_digits(s)) as int)
    } else {
        dec_val(literal_digits(s)) as int
    }
}

/// An arbitrary-precision integer: a sign and a minimal big-endian
/// magnitude. Zero is an empty magnitude and is never negative.
#[derive(Debug)]
pub struct BigIntValue {
    /// Whether the value is below zero.
    pub negative: bool,
    /// The magnitude, big-endian, with no leading zero byte.
    pub magnitude: Vec<u8>,
}

impl BigIntValue {
    /// The structural invariant: minimal magnitude, no negative zero.
    pub open spec fn well_formed(&self) -> bool {
        be_minimal(self.magnitude@) && (self.negative ==> self.magnitude@.len() > 0)
    }

    /// The integer this value denotes.
    pub open spec fn spec_value(&self) -> int {
        if self.negative {
            -(be_val(self.magnitude@) as int)
        } else {
            be_val(self.magnitude@) as int
        }
    }
}

pub proof fn lemma_dec_val_take_step(s: Seq<char>, i: int)
    requires
        0 <= i < s.len(),
    ensures
        dec_val(s.take(i + 1)) == dec_val(s.take(i)) * 10 + dec_digit_value(s[i]),
{
    assert(s.take(i + 1).drop_last() =~= s.take(i));
    assert(s.take(i + 1).last() == s[i]);
}

pub proof fn lemma_le_val_push(s: Seq<u8>, x: u8)
    ensures
        le_val(s.push(x)) == le_val(s) + x * pow(256, s.len()),
    decreases s.len(),
{
    if s.len() == 0 {
        assert(s.push(x).drop_first() =~= Seq::<u8>::empty());
        assert(pow(256, 0) == 1) by {
            vstd::arithmetic::power::lemma_pow0(256);
        }
        assert(le_val(s.push(x)) == s.push(x)[0] as nat + le_val(s.push(x).drop_first()) * 256);
        assert(s.push(x)[0] == x);
        assert(le_val(s.push(x).drop_first()) == 0);
    } else {
        assert(s.push(x).drop_first() =~= s.drop_first().push(x));
        lemma_le_val_push(s.drop_first(), x);
        assert(pow(256, s.len()) == 256 * pow(256, (s.len() - 1) as nat)) by {
            lemma_pow_adds(256, 1, (s.len() - 1) as nat);
            vstd::arithmetic::power::lemma_pow1(256);
        }
        assert(le_val(s.push(x)) == s[0] + (le_val(s.drop_first()) + x * pow(
            256,
            (s.len() - 1) as nat,
        )) * 256);
        assert((le_val(s.drop_first()) + x * pow(256, (s.len() - 1) as nat)) * 256 == le_val(
            s.drop_first(),
        ) * 256 + x * (256 * pow(256, (s.len() - 1) as nat))) by (nonlinear_arith);
    }
}

/// A little-endian string read backwards denotes the same number big-endian.
pub proof fn lemma_rev_le_be(v: Seq<u8>, r: Seq<u8>)
    requires
        r.len() == v.len(),
        forall|j: int| 0 <= j < r.len() ==> r[j] == v[v.len() - 1 - j],
    ensures
        be_val(r) == le_val(v),
    decreases v.len(),
{
    if v.len() > 0 {
        assert(r.drop_last() =~= Seq::new((v.len() - 1) as nat, |j: int| v[v.len() - 1 - j]));
        let v2 = v.drop_first();
        let r2 = r.drop_last();
        assert(forall|j: int| 0 <= j < r2.len() ==> r2[j] == v2[v2.len() - 1 - j]);
        lemma_rev_le_be(v2, r2);
        assert(r.last() == v[0]);
    }
}

/// The value of big-endian bytes is below the capacity of their length.
pub proof fn lemma_be_val_bound(b: Seq<u8>)
    ensures
        be_val(b) < pow(256, b.len()),
    decreases b.len(),
{
    if b.len() == 0 {
        vstd::arithmetic::power::lemma_pow0(256);
    } else {
        lemma_be_val_bound(b.drop_last());
        assert(pow(256, b.len()) == pow(256, (b.len() - 1) as nat) * 256) by {
            lemma_pow_adds(256, (b.len() - 1) as nat, 1);
            vstd::arithmetic::power::lemma_pow1(256);
        }
        assert(be_val(b.drop_last()) * 256 + (b.last() as nat) < pow(256, (b.len() - 1) as nat)
            * 256) by {
            assert(be_val(b.drop_last()) + 1 <= pow(256, (b.len() - 1) as nat));
            assert((be_val(b.drop_last()) + 1) * 256 <= pow(256, (b.len() - 1) as nat) * 256)
                by (nonlinear_arith)
                requires
                    be_val(b.drop_last()) + 1 <= pow(256, (b.len() - 1) as nat),
            ;
        }
    }
}

/// A minimal nonempty big-endian string reaches the capacity of one byte less.
pub proof fn lemma_be_val_minimal_lower(b: Seq<u8>)
    requires
        b.len() > 0,
        b[0] != 0,
    ensures
        be_val(b) >= pow(256, (b.len() - 1) as nat),
    decreases b.len(),
{
    if b.len() == 1 {
        vstd::arithmetic::power::lemma_pow0(256);
        assert(be_val(b) == be_val(b.drop_last()) * 256 + b.last() as nat);
        assert(be_val(b.drop_last()) == 0);
        assert(b.last() == b[0]);
    } else {
        lemma_be_val_minimal_lower(b.drop_last());
        assert(pow(256, (b.len() - 1) as nat) == pow(256, (b.len() - 2) as nat) * 256) by {
            lemma_pow_adds(256, (b.len() - 2) as nat, 1);
            vstd::arithmetic::power::lemma_pow1(256);
        }
        assert(be_val(b.drop_last()) * 256 >= pow(256, (b.len() - 2) as nat) * 256)
            by (nonlinear_arith)
            requires
                be_val(b.drop_last()) >= pow(256, (b.len() - 2) as nat),
        ;
    }
}

/// Multiplies the little-endian number by ten and adds a digit, in place.
fn le_mul10_add(acc: &mut Vec<u8>, d: u8)
    requires
        d < 10,
        le_minimal(old(acc)@),
    ensures
        le_val(final(acc)@) == le_val(old(acc)@) * 10 + d,
        le_minimal(final(acc)@),
{
    let n: usize = acc.len();
    let mut carry: u32 = d as u32;
    let mut i: usize = 0;
    proof {
        vstd::arithmetic::power::lemma_pow0(256);
    }
    while i < n
        invariant
            n == acc@.len(),
            n == old(acc)@.len(),
            i <= n,
            carry < 10,
            acc@.skip(i as int) =~= old(acc)@.skip(i as int),
            le_val(acc@.take(i as int)) + pow(256, i as nat) * carry == le_val(
                old(acc)@.take(i as int),
            ) * 10 + d,
            forall|j: int| i <= j < n ==> acc@[j] == old(acc)@[j],
            le_minimal(old(acc)@),
            (i == n && n > 0 && carry == 0) ==> acc@[n - 1] != 0,
        decreases n - i,
    {
        let a: u8 = acc[i];
        let ghost pre: Seq<u8> = acc@;
        let cur: u32 = a as u32 * 10 + carry;
        let lo: u8 = (cur % 256) as u8;
        let hi: u32 = cur / 256;
        acc.set(i, lo);
        proof {
            let t0 = old(acc)@.take(i as int);
            let t1 = old(acc)@.take(i + 1 as int);
            assert(t1 =~= t0.push(a));
            lemma_le_val_push(t0, a);
            let n0 = pre.take(i as int);
            let n1 = acc@.take(i + 1 as int);
            assert(acc@ =~= pre.update(i as int, lo));
            assert(n1 =~= n0.push(lo));
            lemma_le_val_push(n0, lo);
            assert(cur == 256 * hi + lo) by {
                lemma_fundamental_div_mod(cur as int, 256);
            }
            let p = pow(256, i as nat);
            assert(p > 0) by {
                lemma_pow_positive(256, i as nat);
            }
            assert(pow(256, (i + 1) as nat) == p * 256) by {
                lemma_pow_adds(256, i as nat, 1);
                vstd::arithmetic::power::lemma_pow1(256);
            }
            assert(le_val(n1) + pow(256, (i + 1) as nat) * hi == le_val(t1) * 10 + d) by (
            nonlinear_arith)
                requires
                    le_val(n1) == le_val(n0) + lo * p,
                    le_val(t1) == le_val(t0) + a * p,
                    le_val(n0) + p * carry == le_val(t0) * 10 + d,
                    cur == 256 * hi + lo,
                    cur == a * 10 + carry,
                    pow(256, (i + 1) as nat) == p * 256,
            ;
            if i + 1 == n {
                // a minimal top limb keeps the result's top limb nonzero
                // whenever no carry leaves it
                assert(a == old(acc)@[n - 1]);
                assert(a != 0);
                if hi == 0 {
                    assert(cur == lo);
                    assert(lo >= 10);
                }
            }
        }
        carry = hi;
        i = i + 1;
    }
    proof {
        assert(acc@.take(n as int) =~= acc@);
        assert(old(acc)@.take(n as int) =~= old(acc)@);
    }
    if carry > 0 {
        let c: u8 = carry as u8;
        let ghost mid: Seq<u8> = acc@;
        proof {
            lemma_le_val_push(mid, c);
            assert(pow(256, n as nat) > 0) by {
                lemma_pow_positive(256, n as nat);
            }
        }
        acc.push(c);
        proof {
            assert(acc@ == mid.push(c));
            assert(mid.len() == n);
            assert(c as nat == carry as nat);
            assert(le_val(acc@) == le_val(mid) + (c as nat) * pow(256, n as nat));
            assert(le_val(mid) + pow(256, n as nat) * (carry as nat) == le_val(old(acc)@) * 10
                + d);
            assert((c as nat) * pow(256, n as nat) == pow(256, n as nat) * (carry as nat)) by (
            nonlinear_arith)
                requires
                    c as nat == carry as nat,
            ;
            assert(le_val(acc@) == le_val(old(acc)@) * 10 + d);
        }
    }
}

pub proof fn lemma_be_val_single(s: Seq<u8>)
    requires
        s.len() == 1,
    ensures
        be_val(s) == s[0] as nat,
{
    reveal_with_fuel(be_val, 2);
    assert(s.drop_last().len() == 0);
    assert(be_val(s.drop_last()) == 0);
    assert(s.last() == s[0]);
}

pub proof fn lemma_be_val_push(s: Seq<u8>, x: u8)
    ensures
        be_val(s.push(x)) == be_val(s) * 256 + x,
{
    assert(s.push(x).drop_last() =~= s);
    assert(s.push(x).last() == x);
}

/// Splitting a big-endian string splits its value positionally.
pub proof fn lemma_be_val_split(s: Seq<u8>, k: int)
    requires
        0 <= k <= s.len(),
    ensures
        be_val(s) == be_val(s.take(k)) * pow(256, (s.len() - k) as nat) + be_val(s.skip(k)),
    decreases s.len() - k,
{
    if k == s.len() {
        assert(s.take(k) =~= s);
        assert(s.skip(k) =~= Seq::<u8>::empty());
        vstd::arithmetic::power::lemma_pow0(256);
    } else {
        lemma_be_val_split(s.drop_last(), k);
        assert(s.drop_last().take(k) =~= s.take(k));
        assert(s.drop_last().skip(k) =~= s.skip(k).drop_last());
        assert(s.skip(k).last() == s.last());
        let m = (s.len() - 1 - k) as nat;
        assert(pow(256, m + 1) == pow(256, m) * 256) by {
            lemma_pow_adds(256, m, 1);
            vstd::arithmetic::power::lemma_pow1(256);
        }
        assert((be_val(s.take(k)) * pow(256, m) + be_val(s.skip(k).drop_last())) * 256 + (
        s.last() as nat) == be_val(s.take(k)) * (pow(256, m) * 256) + (be_val(
            s.skip(k).drop_last(),
        ) * 256 + (s.last() as nat))) by (nonlinear_arith);
    }
}

/// A string of zero bytes denotes zero.
pub proof fn lemma_be_val_all_zero(s: Seq<u8>)
    requires
        forall|i: int| 0 <= i < s.len() ==> s[i] == 0,
    ensures
        be_val(s) == 0,
    decreases s.len(),
{
    if s.len() > 0 {
        lemma_be_val_all_zero(s.drop_last());
    }
}

/// Only a string of zero bytes denotes zero.
pub proof fn lemma_be_val_zero_only(s: Seq<u8>)
    requires
        be_val(s) == 0,
    ensures
        forall|i: int| 0 <= i < s.len() ==> s[i] == 0,
    decreases s.len(),
{
    if s.len() > 0 {
        assert(be_val(s.drop_last()) * 256 + (s.last() as nat) == 0);
        lemma_be_val_zero_only(s.drop_last());
        assert forall|i: int| 0 <= i < s.len() implies s[i] == 0 by {
            if i < s.len() - 1 {
                assert(s.drop_last()[i] == 0);
            }
        }
    }
}

/// Zero bytes in front change nothing of the value.
pub proof fn lemma_be_val_zero_prefix(k: nat, m: Seq<u8>)
    ensures
        be_val(crate::pad::zero_seq(k) + m) == be_val(m),
{
    let s = crate::pad::zero_seq(k) + m;
    lemma_be_val_split(s, k as int);
    assert(s.take(k as int) =~= crate::pad::zero_seq(k));
    assert(s.skip(k as int) =~= m);
    assert(forall|i: int| 0 <= i < k ==> crate::pad::zero_seq(k)[i] == 0);
    lemma_be_val_all_zero(crate::pad::zero_seq(k));
    assert(be_val(s.take(k as int)) == 0);
    assert(0 * pow(256, (s.len() - k) as nat) == 0) by (nonlinear_arith);
}

/// A pointwise complement denotes the complement of the value.
pub proof fn lemma_be_val_invert(a: Seq<u8>, b: Seq<u8>)
    requires
        a.len() == b.len(),
        forall|i: int| 0 <= i < a.len() ==> b[i] == 255 - a[i],
    ensures
        be_val(b) + be_val(a) + 1 == pow(256, a.len()),
    decreases a.len(),
{
    if a.len() == 0 {
        vstd::arithmetic::power::lemma_pow0(256);
    } else {
        assert(forall|i: int|
            0 <= i < a.len() - 1 ==> b.drop_last()[i] == 255 - #[trigger] a.drop_last()[i]);
        lemma_be_val_invert(a.drop_last(), b.drop_last());
        assert(pow(256, a.len()) == pow(256, (a.len() - 1) as nat) * 256) by {
            lemma_pow_adds(256, (a.len() - 1) as nat, 1);
            vstd::arithmetic::power::lemma_pow1(256);
        }
        assert(b.last() == 255 - a.last());
        assert((be_val(b.drop_last()) + be_val(a.drop_last()) + 1) * 256 == be_val(b.drop_last())
            * 256 + be_val(a.drop_last()) * 256 + 256) by (nonlinear_arith);
    }
}

/// The powers of two that bound a `w`-byte buffer, in byte terms:
/// a sign bit's weight is half the capacity.
pub proof fn lemma_byte_capacity(w: nat)
    requires
        w >= 1,
    ensures
        pow2(8 * w) == pow(256, w),
        pow2((8 * w - 1) as nat) == 128 * pow(256, (w - 1) as nat),
        pow2(8 * w) == 256 * pow(256, (w - 1) as nat),
        pow2((8 * w - 1) as nat) * 2 == pow2(8 * w),
{
    vstd::arithmetic::power2::lemma_pow2(8 * w);
    vstd::arithmetic::power2::lemma_pow2((8 * w - 1) as nat);
    lemma_pow_multiplies(2, 8, w);
    assert(pow(2, 8) == 256) by {
        vstd::arithmetic::power2::lemma2_to64();
        vstd::arithmetic::power2::lemma_pow2(8);
    }
    assert(pow(2, (8 * w - 1) as nat) == pow(2, 7) * pow(2, (8 * (w - 1)) as nat)) by {
        lemma_pow_adds(2, 7, (8 * w - 8) as nat);
    }
    assert(pow(2, 7) == 128) by {
        vstd::arithmetic::power2::lemma2_to64();
        vstd::arithmetic::power2::lemma_pow2(7);
    }
    lemma_pow_multiplies(2, 8, (w - 1) as nat);
    assert(pow(2, 8 * w) == pow(2, 8) * pow(2, (8 * (w - 1)) as nat)) by {
        lemma_pow_adds(2, 8, (8 * w - 8) as nat);
    }
    assert(pow2((8 * w - 1) as nat) * 2 == 2 * (128 * pow(256, (w - 1) as nat)));
    assert(2 * (128 * pow(256, (w - 1) as nat)) == 256 * pow(256, (w - 1) as nat))
        by (nonlinear_arith);
}

/// Adds one to a big-endian buffer in place; the caller rules out overflow.
fn be_add_one(b: &mut Vec<u8>)
    requires
        be_val(old(b)@) + 1 < pow(256, old(b)@.len()),
    ensures
        final(b)@.len() == old(b)@.len(),
        be_val(final(b)@) == be_val(old(b)@) + 1,
{
    let n: usize = b.len();
    let mut i: usize = n;
    while i > 0
        invariant
            i <= n,
            n == b@.len(),
            n == old(b)@.len(),
            b@.take(i as int) =~= old(b)@.take(i as int),
            forall|j: int| i <= j < n ==> old(b)@[j] == 255 && b@[j] == 0,
            be_val(old(b)@) + 1 < pow(256, n as nat),
        decreases i,
    {
        i = i - 1;
        let v: u8 = b[i];
        if v == 255 {
            let ghost pre: Seq<u8> = b@;
            b.set(i, 0);
            proof {
                assert(b@ =~= pre.update(i as int, 0u8));
                assert(b@.take(i as int) =~= old(b)@.take(i as int));
                assert(pre.take(i + 1) =~= old(b)@.take(i + 1));
                assert(pre.take(i + 1)[i as int] == pre[i as int]);
                assert(old(b)@.take(i + 1)[i as int] == old(b)@[i as int]);
                assert(pre[i as int] == old(b)@[i as int]);
                assert forall|j: int| i <= j < n implies old(b)@[j] == 255 && b@[j] == 0 by {
                    if j == i {
                        assert(old(b)@[j] == v);
                    } else {
                        assert(old(b)@[j] == 255 && pre[j] == 0);
                    }
                }
            }
        } else {
            let ghost pre: Seq<u8> = b@;
            b.set(i, v + 1);
            proof {
                let m = (n - i - 1) as nat;
                let cur = b@;
                assert(cur =~= pre.update(i as int, (v + 1) as u8));
                lemma_be_val_split(cur, i + 1);
                lemma_be_val_split(old(b)@, i + 1);
                assert(cur.take(i + 1) =~= old(b)@.take(i as int).push((v + 1) as u8));
                assert(old(b)@.take(i + 1) =~= old(b)@.take(i as int).push(v));
                lemma_be_val_push(old(b)@.take(i as int), (v + 1) as u8);
                lemma_be_val_push(old(b)@.take(i as int), v);
                assert(forall|j: int| 0 <= j < m ==> #[trigger] cur.skip(i + 1)[j] == 0);
                lemma_be_val_all_zero(cur.skip(i + 1));
                assert(forall|j: int|
                    0 <= j < m ==> #[trigger] old(b)@.skip(i + 1)[j] == 255 - crate::pad::zero_seq(
                        m,
                    )[j]);
                lemma_be_val_all_zero(crate::pad::zero_seq(m));
                lemma_be_val_invert(crate::pad::zero_seq(m), old(b)@.skip(i + 1));
                assert(be_val(old(b)@.skip(i + 1)) == pow(256, m) - 1);
                let t = be_val(old(b)@.take(i + 1));
                assert(be_val(old(b)@) == t * pow(256, m) + pow(256, m) - 1);
                assert(be_val(cur) == (t + 1) * pow(256, m));
                assert((t + 1) * pow(256, m) == t * pow(256, m) + pow(256, m))
                    by (nonlinear_arith);
            }
            return ;
        }
    }
    proof {
        // every byte was 255, so the buffer already held its capacity
        assert(b@.take(0) =~= old(b)@.take(0));
        assert(forall|j: int|
            0 <= j < n ==> #[trigger] old(b)@[j] == 255 - crate::pad::zero_seq(n as nat)[j]);
        lemma_be_val_all_zero(crate::pad::zero_seq(n as nat));
        lemma_be_val_invert(crate::pad::zero_seq(n as nat), old(b)@);
        assert(false);
    }
}

/// Copies a byte vector.
fn copy_bytes(v: &Vec<u8>) -> (r: Vec<u8>)
    ensures
        r@ =~= v@,
{
    let mut out: Vec<u8> = Vec::new();
    let n: usize = v.len();
    let mut i: usize = 0;
    while i < n
        invariant
            n == v@.len(),
            i <= n,
            out@ =~= v@.take(i as int),
        decreases n - i,
    {
        out.push(v[i]);
        i = i + 1;
    }
    proof {
        assert(v@.take(n as int) =~= v@);
    }
    out
}

/// Whether every byte from `from` on is zero.
fn bytes_all_zero_from(v: &Vec<u8>, from: usize) -> (r: bool)
    requires
        from <= v@.len(),
    ensures
        r <==> forall|j: int| from <= j < v@.len() ==> v@[j] == 0,
{
    let n: usize = v.len();
    let mut i: usize = from;
    while i < n
        invariant
            from <= i <= n,
            n == v@.len(),
            forall|j: int| from <= j < i ==> v@[j] == 0,
        decreases n - i,
    {
        if v[i] != 0 {
            return false;
        }
        i = i + 1;
    }
    true
}

/// Encodes a non-negative value as its minimal big-endian magnitude, to be
/// left-padded by the caller to `byte_width` bytes. Fails with
/// `NumericOverflow` when the value is negative or does not fit.
pub fn encode_unsigned(value: &BigIntValue, byte_width: usize) -> (r: Result<Vec<u8>, PackError>)
    requires
        value.well_formed(),
    ensures
        r is Ok <==> 0 <= value.spec_value() < pow(256, byte_width as nat),
        r matches Ok(b) ==> b@ == value.magnitude@ && be_val(b@) == value.spec_value()
            && b@.len() <= byte_width,
        r matches Err(e) ==> e == PackError::NumericOverflow,
{
    if value.negative {
        proof {
            lemma_be_val_minimal_lower(value.magnitude@);
            lemma_pow_positive(256, (value.magnitude@.len() - 1) as nat);
            lemma_pow_positive(256, byte_width as nat);
        }
        return Err(PackError::NumericOverflow);
    }
    let len: usize = value.magnitude.len();
    if len > byte_width {
        proof {
            lemma_be_val_minimal_lower(value.magnitude@);
            lemma_pow_increases(256, byte_width as nat, (len - 1) as nat);
        }
        return Err(PackError::NumericOverflow);
    }
    proof {
        lemma_be_val_bound(value.magnitude@);
        lemma_pow_increases(256, len as nat, byte_width as nat);
    }
    Ok(copy_bytes(&value.magnitude))
}

/// Encodes a value in `bit_width`-bit two's complement. A non-negative
/// value yields its minimal magnitude, to be left-padded by the caller; a
/// negative value yields the full `bit_width / 8` bytes. Fails with
/// `NumericOverflow` outside `-2^(bit_width-1) ..= 2^(bit_width-1) - 1`.
pub fn encode_twos_complement(value: &BigIntValue, bit_width: usize) -> (r: Result<
    Vec<u8>,
    PackError,
>)
    requires
        value.well_formed(),
        bit_width % 8 == 0,
        8 <= bit_width <= 256,
    ensures
        r is Ok <==> -(pow2((bit_width - 1) as nat) as int) <= value.spec_value() < pow2(
            (bit_width - 1) as nat,
        ) as int,
        r matches Ok(b) ==> b@.len() <= bit_width / 8,
        r matches Ok(b) ==> (!value.negative ==> b@ == value.magnitude@ && be_val(b@)
            == value.spec_value()),
        r matches Ok(b) ==> (value.negative ==> b@.len() == bit_width / 8 && be_val(b@) as int
            == value.spec_value() + pow2(bit_width as nat) as int),
        r matches Err(e) ==> e == PackError::NumericOverflow,
{
    let w: usize = bit_width / 8;
    proof {
        lemma_byte_capacity(w as nat);
        assert(8 * (w as nat) == bit_width as nat);
    }
    let len: usize = value.magnitude.len();
    let half: Ghost<nat> = Ghost(pow2((bit_width - 1) as nat));
    if !value.negative {
        // a non-negative value must stay below the sign bit's weight
        let fits: bool = if len < w {
            proof {
                lemma_be_val_bound(value.magnitude@);
                lemma_pow_increases(256, len as nat, (w - 1) as nat);
            }
            true
        } else if len == w {
            let top: u8 = value.magnitude[0];
            proof {
                if top < 128 {
                    lemma_be_val_split(value.magnitude@, 1);
                    assert(value.magnitude@.take(1)[0] == top);
                    lemma_be_val_single(value.magnitude@.take(1));
                    assert(be_val(value.magnitude@.take(1)) == top as nat);
                    lemma_be_val_bound(value.magnitude@.skip(1));
                    assert((top as nat) * pow(256, (w - 1) as nat) + pow(256, (w - 1) as nat) <= 128
                        * pow(256, (w - 1) as nat)) by (nonlinear_arith)
                        requires
                            (top as nat) + 1 <= 128,
                            pow(256, (w - 1) as nat) >= 0,
                    ;
                } else {
                    lemma_be_val_split(value.magnitude@, 1);
                    assert(value.magnitude@.take(1)[0] == top);
                    lemma_be_val_single(value.magnitude@.take(1));
                    assert(be_val(value.magnitude@.take(1)) == top as nat);
                    assert((top as nat) * pow(256, (w - 1) as nat) >= 128 * pow(
                        256,
                        (w - 1) as nat,
                    )) by (nonlinear_arith)
                        requires
                            top as nat >= 128,
                            pow(256, (w - 1) as nat) >= 0,
                    ;
                }
            }
            top < 128
        } else {
            proof {
                lemma_be_val_minimal_lower(value.magnitude@);
                lemma_pow_increases(256, w as nat, (len - 1) as nat);
                assert(pow(256, w as nat) == 256 * pow(256, (w - 1) as nat)) by {
                    lemma_pow_adds(256, 1, (w - 1) as nat);
                    vstd::arithmetic::power::lemma_pow1(256);
                }
            }
            false
        };
        if !fits {
            return Err(PackError::NumericOverflow);
        }
        proof {
            lemma_be_val_bound(value.magnitude@);
            lemma_pow_increases(256, len as nat, w as nat);
        }
        return Ok(copy_bytes(&value.magnitude));
    }
    // negative: the magnitude may reach the sign bit's weight exactly
    let within: bool = if len < w {
        proof {
            lemma_be_val_bound(value.magnitude@);
            lemma_pow_increases(256, len as nat, (w - 1) as nat);
        }
        true
    } else if len == w {
        let top: u8 = value.magnitude[0];
        proof {
            lemma_be_val_split(value.magnitude@, 1);
            assert(value.magnitude@.take(1)[0] == top);
            lemma_be_val_single(value.magnitude@.take(1));
            assert(be_val(value.magnitude@.take(1)) == top as nat);
            lemma_be_val_bound(value.magnitude@.skip(1));
        }
        if top < 128 {
            proof {
                assert((top as nat) * pow(256, (w - 1) as nat) + pow(256, (w - 1) as nat) <= 128
                    * pow(256, (w - 1) as nat)) by (nonlinear_arith)
                    requires
                        (top as nat) + 1 <= 128,
                        pow(256, (w - 1) as nat) >= 0,
                ;
            }
            true
        } else if top == 128 {
            let rest_zero: bool = bytes_all_zero_from(&value.magnitude, 1);
            proof {
                if rest_zero {
                    assert(forall|j: int|
                        0 <= j < value.magnitude@.skip(1).len()
                            ==> #[trigger] value.magnitude@.skip(1)[j] == 0);
                    lemma_be_val_all_zero(value.magnitude@.skip(1));
                } else {
                    if be_val(value.magnitude@.skip(1)) == 0 {
                        lemma_be_val_zero_only(value.magnitude@.skip(1));
                        assert forall|j: int| 1 <= j < value.magnitude@.len() implies value.magnitude@[j]
                            == 0 by {
                            assert(value.magnitude@.skip(1)[j - 1] == 0);
                        }
                    }
                    assert(be_val(value.magnitude@.skip(1)) >= 1);
                    assert((top as nat) * pow(256, (w - 1) as nat) == 128 * pow(
                        256,
                        (w - 1) as nat,
                    ));
                }
            }
            rest_zero
        } else {
            proof {
                assert((top as nat) * pow(256, (w - 1) as nat) >= 129 * pow(256, (w - 1) as nat))
                    by (nonlinear_arith)
                    requires
                        top as nat >= 129,
                        pow(256, (w - 1) as nat) >= 0,
                ;
                lemma_pow_positive(256, (w - 1) as nat);
            }
            false
        }
    } else {
        proof {
            lemma_be_val_minimal_lower(value.magnitude@);
            lemma_pow_increases(256, w as nat, (len - 1) as nat);
            assert(pow(256, w as nat) == 256 * pow(256, (w - 1) as nat)) by {
                lemma_pow_adds(256, 1, (w - 1) as nat);
                vstd::arithmetic::power::lemma_pow1(256);
            }
        }
        false
    };
    if !within {
        return Err(PackError::NumericOverflow);
    }
    // two's complement: invert the padded magnitude and add one
    let padded: Vec<u8> = match crate::pad::zero_pad_value(value.magnitude.as_slice(), w) {
        Ok(p) => p,
        Err(_) => {
            proof {
                assert(false);
            }
            return Err(PackError::NumericOverflow);
        },
    };
    proof {
        lemma_be_val_zero_prefix((w - len) as nat, value.magnitude@);
        assert(crate::pad::zero_seq((w - len) as nat) + value.magnitude@ =~= padded@);
    }
    let mut inv: Vec<u8> = Vec::new();
    let mut i: usize = 0;
    while i < w
        invariant
            i <= w,
            padded@.len() == w,
            inv@.len() == i,
            forall|j: int| 0 <= j < i ==> inv@[j] == 255 - padded@[j],
        decreases w - i,
    {
        inv.push(255 - padded[i]);
        i = i + 1;
    }
    proof {
        lemma_be_val_invert(padded@, inv@);
        lemma_be_val_minimal_lower(value.magnitude@);
        lemma_pow_positive(256, (value.magnitude@.len() - 1) as nat);
        assert(be_val(value.magnitude@) >= 1);
        assert(be_val(inv@) + 1 < pow(256, w as nat));
    }
    be_add_one(&mut inv);
    Ok(inv)
}

/// Reading a two's-complement buffer back: the number below the sign bit's
/// weight, else that number less the full capacity.
pub open spec fn twos_complement_val(b: Seq<u8>, bits: nat) -> int {
    if be_val(b) < pow2((bits - 1) as nat) {
        be_val(b) as int
    } else {
        be_val(b) as int - pow2(bits) as int
    }
}

/// Round trip: a value encoded in `bits`-bit two's complement and read
/// back as one is recovered exactly, over the whole representable range.
pub proof fn lemma_twos_complement_round_trip(b: Seq<u8>, v: int, bits: nat)
    requires
        bits % 8 == 0,
        8 <= bits <= 256,
        b.len() == bits / 8,
        -(pow2((bits - 1) as nat) as int) <= v < pow2((bits - 1) as nat) as int,
        be_val(b) as int == if v >= 0 {
            v
        } else {
            v + pow2(bits) as int
        },
    ensures
        twos_complement_val(b, bits) == v,
{
    lemma_byte_capacity((bits / 8) as nat);
    assert(pow2((bits - 1) as nat) * 2 == pow2(bits));
}

/// Parses an integer literal: an optional `+` or `-` sign followed by one
/// or more decimal digits. Anything else fails with `InvalidNumeric`.
/// A literal denoting zero is never negative, `-0` included.
pub fn parse_big_int(value: &str) -> (r: Result<BigIntValue, PackError>)
    ensures
        r is Ok <==> is_int_literal(value@),
        r matches Ok(v) ==> v.well_formed() && v.spec_value() == literal_value(value@),
        r matches Err(e) ==> e == PackError::InvalidNumeric,
{
    let len: usize = value.unicode_len();
    if len == 0 {
        return Err(PackError::InvalidNumeric);
    }
    let c0: char = value.get_char(0);
    let neg: bool = c0 == '-';
    let start: usize = if c0 == '-' || c0 == '+' {
        1
    } else {
        0
    };
    let ghost digits: Seq<char> = literal_digits(value@);
    proof {
        assert(digits =~= value@.skip(start as int));
    }
    if len == start {
        // a bare sign has no digits
        return Err(PackError::InvalidNumeric);
    }
    let mut le: Vec<u8> = Vec::new();
    let mut i: usize = 0;
    let n: usize = len - start;
    while i < n
        invariant
            value@.len() == len,
            start + n == len,
            n > 0,
            i <= n,
            digits == literal_digits(value@),
            digits =~= value@.skip(start as int),
            le_minimal(le@),
            le_val(le@) == dec_val(digits.take(i as int)),
            forall|j: int| 0 <= j < i ==> is_dec_digit(#[trigger] digits[j]),
        decreases n - i,
    {
        let c: char = value.get_char(start + i);
        proof {
            assert(digits[i as int] == c);
        }
        let d: u8 = {
            let u: u32 = c as u32;
            if 48 <= u && u <= 57 {
                (u - 48) as u8
            } else {
                proof {
                    assert(!is_dec_digit(digits[i as int]));
                    assert(!is_dec_digits(digits));
                }
                return Err(PackError::InvalidNumeric);
            }
        };
        le_mul10_add(&mut le, d);
        proof {
            lemma_dec_val_take_step(digits, i as int);
        }
        i = i + 1;
    }
    proof {
        assert(digits.take(n as int) =~= digits);
    }
    // reverse the limbs into a big-endian magnitude
    let m: usize = le.len();
    let mut mag: Vec<u8> = Vec::new();
    let mut j: usize = 0;
    while j < m
        invariant
            m == le@.len(),
            j <= m,
            mag@.len() == j,
            forall|k: int| 0 <= k < j ==> mag@[k] == le@[m - 1 - k],
        decreases m - j,
    {
        mag.push(le[m - 1 - j]);
        j = j + 1;
    }
    proof {
        lemma_rev_le_be(le@, mag@);
    }
    let is_zero: bool = mag.len() == 0;
    Ok(BigIntValue { negative: neg && !is_zero, magnitude: mag })
}

} // verus!
