//! Ether amounts: wei-to-ether formatting and ether-to-wei parsing over
//! decimal strings, at eighteen decimal places.

use vstd::prelude::*;
use vstd::arithmetic::power::{pow, lemma_pow_adds, lemma_pow_positive};
use vstd::arithmetic::div_mod::lemma_fundamental_div_mod_converse;
use crate::hex_data::hex_char;
use crate::numeric::{dec_val, dec_digit_value, is_dec_digit, is_dec_digits};
use crate::pack::find_first;

verus! {

/// `n` zero characters.
pub open spec fn char_zeros(n: nat) -> Seq<char> {
    Seq::new(n, |i: int| '0')
}

/// The canonical decimal spelling of `n`: no leading zero, `0` for zero.
pub open spec fn dec_digits_of(n: nat) -> Seq<char>
    decreases n,
{
    if n < 10 {
        seq![hex_char(n as u8)]
    } else {
        dec_digits_of(n / 10).push(hex_char((n % 10) as u8))
    }
}

/// The exactly-`width`-digit spelling of `n`, zero-filled on the left.
pub open spec fn fixed_digits(n: nat, width: nat) -> Seq<char>
    decreases width,
{
    if width == 0 {
        Seq::empty()
    } else {
        fixed_digits(n / 10, (width - 1) as nat).push(hex_char((n % 10) as u8))
    }
}

/// `s` with its trailing zero characters removed.
pub open spec fn trim_trailing_zeros(s: Seq<char>) -> Seq<char>
    decreases s.len(),
{
    if s.len() > 0 && s.last() == '0' {
        trim_trailing_zeros(s.drop_last())
    } else {
        s
    }
}

/// The ether spelling of `n` wei: the whole ether part in canonical
/// decimal and, when any of the eighteen fractional digits is not zero,
/// a point and the fractional digits with trailing zeros removed.
pub open spec fn eth_of_wei(n: nat) -> Seq<char> {
    let q = n / pow(10, 18) as nat;
    let frac = trim_trailing_zeros(fixed_digits(n % pow(10, 18) as nat, 18));
    if frac.len() == 0 {
        dec_digits_of(q)
    } else {
        dec_digits_of(q) + seq!['.'] + frac
    }
}

/// Whether `s` is an ether literal the wei conversion accepts: digits
/// with at most one point among them, one digit at least.
pub open spec fn is_eth_literal(s: Seq<char>) -> bool {
    (forall|i: int| 0 <= i < s.len() ==> (is_dec_digit(#[trigger] s[i]) || s[i] == '.')) && (
    exists|i: int| 0 <= i < s.len() && is_dec_digit(#[trigger] s[i])) && (forall|i: int, j: int|
        0 <= i < j < s.len() && #[trigger] s[i] == '.' ==> #[trigger] s[j] != '.')
}

/// The whole part of an ether literal: everything before the point.
pub open spec fn eth_int_digits(s: Seq<char>) -> Seq<char> {
    let di = find_first(s, '.');
    if di < 0 {
        s
    } else {
        s.take(di)
    }
}

/// The fractional part of an ether literal: everything after the point.
pub open spec fn eth_frac_digits(s: Seq<char>) -> Seq<char> {
    let di = find_first(s, '.');
    if di < 0 {
        Seq::empty()
    } else {
        s.skip(di + 1)
    }
}

/// The fractional part cut or zero-filled to eighteen digits: places
/// beyond the eighteenth are dropped, as the unit conversion drops them.
pub open spec fn eth_frac18(s: Seq<char>) -> Seq<char> {
    let f = eth_frac_digits(s);
    if f.len() >= 18 {
        f.take(18)
    } else {
        f + char_zeros((18 - f.len()) as nat)
    }
}

/// The wei value of an ether literal.
pub open spec fn wei_of_eth(s: Seq<char>) -> nat {
    dec_val(eth_int_digits(s) + eth_frac18(s))
}

pub proof fn lemma_digit_char_id(c: char)
    requires
        is_dec_digit(c),
    ensures
        hex_char(dec_digit_value(c)) == c,
        c == '0' <==> dec_digit_value(c) == 0,
{
    let u: u32 = c as u32;
    vstd::utf8::char_u32_cast(c, u);
    if u == 48 {
        vstd::utf8::char_u32_cast('0', u);
    } else if u == 49 {
        vstd::utf8::char_u32_cast('1', u);
    } else if u == 50 {
        vstd::utf8::char_u32_cast('2', u);
    } else if u == 51 {
        vstd::utf8::char_u32_cast('3', u);
    } else if u == 52 {
        vstd::utf8::char_u32_cast('4', u);
    } else if u == 53 {
        vstd::utf8::char_u32_cast('5', u);
    } else if u == 54 {
        vstd::utf8::char_u32_cast('6', u);
    } else if u == 55 {
        vstd::utf8::char_u32_cast('7', u);
    } else if u == 56 {
        vstd::utf8::char_u32_cast('8', u);
    } else {
        vstd::utf8::char_u32_cast('9', u);
    }
}

pub proof fn lemma_dec_val_bound(s: Seq<char>)
    ensures
        dec_val(s) < pow(10, s.len()),
    decreases s.len(),
{
    if s.len() == 0 {
        vstd::arithmetic::power::lemma_pow0(10);
    } else {
        lemma_dec_val_bound(s.drop_last());
        assert(pow(10, s.len()) == pow(10, (s.len() - 1) as nat) * 10) by {
            lemma_pow_adds(10, (s.len() - 1) as nat, 1);
            vstd::arithmetic::power::lemma_pow1(10);
        }
        assert((dec_val(s.drop_last()) + 1) * 10 <= pow(10, (s.len() - 1) as nat) * 10) by (
        nonlinear_arith)
            requires
                dec_val(s.drop_last()) + 1 <= pow(10, (s.len() - 1) as nat),
        ;
        assert(dec_digit_value(s.last()) < 10);
    }
}

pub proof fn lemma_dec_val_lower(s: Seq<char>)
    requires
        s.len() > 0,
    ensures
        dec_val(s) >= dec_digit_value(s[0]) * pow(10, (s.len() - 1) as nat),
    decreases s.len(),
{
    if s.len() == 1 {
        vstd::arithmetic::power::lemma_pow0(10);
        assert(s.last() == s[0]);
        assert(dec_val(s.drop_last()) == 0);
    } else {
        lemma_dec_val_lower(s.drop_last());
        assert(s.drop_last()[0] == s[0]);
        assert(pow(10, (s.len() - 1) as nat) == pow(10, (s.len() - 2) as nat) * 10) by {
            lemma_pow_adds(10, (s.len() - 2) as nat, 1);
            vstd::arithmetic::power::lemma_pow1(10);
        }
        let d0 = dec_digit_value(s[0]) as nat;
        assert(dec_val(s.drop_last()) * 10 >= d0 * (pow(10, (s.len() - 2) as nat) * 10)) by (
        nonlinear_arith)
            requires
                dec_val(s.drop_last()) >= d0 * pow(10, (s.len() - 2) as nat),
        ;
    }
}

pub proof fn lemma_dec_val_split(s: Seq<char>, k: int)
    requires
        0 <= k <= s.len(),
    ensures
        dec_val(s) == dec_val(s.take(k)) * pow(10, (s.len() - k) as nat) + dec_val(s.skip(k)),
    decreases s.len() - k,
{
    if k == s.len() {
        assert(s.take(k) =~= s);
        assert(s.skip(k) =~= Seq::<char>::empty());
        vstd::arithmetic::power::lemma_pow0(10);
    } else {
        lemma_dec_val_split(s.drop_last(), k);
        assert(s.drop_last().take(k) =~= s.take(k));
        assert(s.drop_last().skip(k) =~= s.skip(k).drop_last());
        assert(s.skip(k).last() == s.last());
        let m = (s.len() - 1 - k) as nat;
        assert(pow(10, m + 1) == pow(10, m) * 10) by {
            lemma_pow_adds(10, m, 1);
            vstd::arithmetic::power::lemma_pow1(10);
        }
        assert((dec_val(s.take(k)) * pow(10, m) + dec_val(s.skip(k).drop_last())) * 10 + (
        dec_digit_value(s.last()) as nat) == dec_val(s.take(k)) * (pow(10, m) * 10) + (dec_val(
            s.skip(k).drop_last(),
        ) * 10 + (dec_digit_value(s.last()) as nat))) by (nonlinear_arith);
    }
}

pub proof fn lemma_dec_val_all_zeros(s: Seq<char>)
    requires
        forall|i: int| 0 <= i < s.len() ==> s[i] == '0',
    ensures
        dec_val(s) == 0,
    decreases s.len(),
{
    if s.len() > 0 {
        lemma_dec_val_all_zeros(s.drop_last());
    }
}

pub proof fn lemma_dec_val_zero_prefix(k: nat, t: Seq<char>)
    ensures
        dec_val(char_zeros(k) + t) == dec_val(t),
{
    let s = char_zeros(k) + t;
    lemma_dec_val_split(s, k as int);
    assert(s.take(k as int) =~= char_zeros(k));
    assert(s.skip(k as int) =~= t);
    assert(forall|i: int| 0 <= i < k ==> char_zeros(k)[i] == '0');
    lemma_dec_val_all_zeros(char_zeros(k));
    assert(0 * pow(10, (s.len() - k) as nat) == 0) by (nonlinear_arith);
}

pub proof fn lemma_fixed_digits_exact(t: Seq<char>, w: nat)
    requires
        t.len() == w,
        forall|i: int| 0 <= i < t.len() ==> is_dec_digit(#[trigger] t[i]),
    ensures
        fixed_digits(dec_val(t), w) == t,
    decreases w,
{
    if w > 0 {
        let n = dec_val(t);
        assert(n == dec_val(t.drop_last()) * 10 + (dec_digit_value(t.last()) as nat));
        assert(dec_digit_value(t.last()) < 10);
        assert(n / 10 == dec_val(t.drop_last()) && n % 10 == dec_digit_value(t.last())) by {
            lemma_fundamental_div_mod_converse(
                n as int,
                10,
                dec_val(t.drop_last()) as int,
                dec_digit_value(t.last()) as int,
            );
        }
        assert(forall|i: int|
            0 <= i < t.drop_last().len() ==> is_dec_digit(#[trigger] t.drop_last()[i]));
        lemma_fixed_digits_exact(t.drop_last(), (w - 1) as nat);
        assert(is_dec_digit(t.last()));
        lemma_digit_char_id(t.last());
        assert(hex_char((n % 10) as u8) == t.last());
        assert(fixed_digits(n, w) =~= t);
    }
}

pub proof fn lemma_canonical_digits(p: Seq<char>)
    requires
        p.len() > 0,
        forall|i: int| 0 <= i < p.len() ==> is_dec_digit(#[trigger] p[i]),
        p.len() > 1 ==> p[0] != '0',
    ensures
        dec_digits_of(dec_val(p)) == p,
    decreases p.len(),
{
    let n = dec_val(p);
    if p.len() == 1 {
        assert(dec_val(p.drop_last()) == 0);
        assert(n == dec_digit_value(p.last()) as nat);
        assert(n < 10);
        lemma_digit_char_id(p[0]);
        assert(hex_char(n as u8) == p[0]);
        assert(dec_digits_of(n) =~= p);
    } else {
        assert(p[0] != '0');
        lemma_digit_char_id(p[0]);
        assert(dec_digit_value(p[0]) >= 1);
        lemma_dec_val_lower(p);
        assert(pow(10, (p.len() - 1) as nat) >= 10) by {
            vstd::arithmetic::power::lemma_pow1(10);
            vstd::arithmetic::power::lemma_pow_increases(10, 1, (p.len() - 1) as nat);
        }
        assert(dec_digit_value(p[0]) * pow(10, (p.len() - 1) as nat) >= 1 * pow(
            10,
            (p.len() - 1) as nat,
        )) by (nonlinear_arith)
            requires
                dec_digit_value(p[0]) >= 1,
                pow(10, (p.len() - 1) as nat) >= 0,
        ;
        assert(n >= 10);
        assert(n == dec_val(p.drop_last()) * 10 + (dec_digit_value(p.last()) as nat));
        assert(n / 10 == dec_val(p.drop_last()) && n % 10 == dec_digit_value(p.last())) by {
            lemma_fundamental_div_mod_converse(
                n as int,
                10,
                dec_val(p.drop_last()) as int,
                dec_digit_value(p.last()) as int,
            );
        }
        assert(p.drop_last()[0] == p[0]);
        lemma_canonical_digits(p.drop_last());
        lemma_digit_char_id(p.last());
        assert(hex_char((n % 10) as u8) == p.last());
        assert(dec_digits_of(n) =~= p);
    }
}

pub proof fn lemma_trim_at(s: Seq<char>, e: int)
    requires
        0 <= e <= s.len(),
        forall|j: int| e <= j < s.len() ==> s[j] == '0',
        e > 0 ==> s[e - 1] != '0',
    ensures
        trim_trailing_zeros(s) == s.take(e),
    decreases s.len() - e,
{
    if e == s.len() {
        if s.len() > 0 {
            assert(s.last() != '0');
        }
        assert(s.take(e) =~= s);
    } else {
        assert(s.last() == '0');
        assert(s.drop_last().take(e) =~= s.take(e));
        lemma_trim_at(s.drop_last(), e);
    }
}

/// Converts a wei amount, given as a decimal string, to its ether
/// spelling: the wei value divided by ten to the eighteenth, the
/// fractional part cut after its last nonzero digit and dropped entirely
/// when zero.
#[verifier::rlimit(60)]
pub fn to_eth(wei: String) -> (r: String)
    requires
        is_dec_digits(wei@),
    ensures
        r@ == eth_of_wei(dec_val(wei@)),
{
    let s: &str = wei.as_str();
    let len: usize = s.unicode_len();
    let ghost n: nat = dec_val(wei@);
    let ghost p18: nat = pow(10, 18) as nat;
    proof {
        lemma_pow_positive(10, 18);
    }
    let split_at: usize = if len > 18 {
        len - 18
    } else {
        0
    };
    let ghost prefix: Seq<char> = wei@.take(split_at as int);
    let ghost suffix: Seq<char> = wei@.skip(split_at as int);
    proof {
        lemma_dec_val_split(wei@, split_at as int);
        lemma_dec_val_bound(suffix);
        if len > 18 {
            assert(suffix.len() == 18);
            assert(n == dec_val(prefix) * p18 + dec_val(suffix));
            lemma_fundamental_div_mod_converse(
                n as int,
                p18 as int,
                dec_val(prefix) as int,
                dec_val(suffix) as int,
            );
        } else {
            assert(prefix =~= Seq::<char>::empty());
            assert(suffix =~= wei@);
            assert(dec_val(prefix) == 0);
            assert(dec_val(suffix) == n);
            assert(pow(10, (wei@.len() - 0) as nat) <= p18) by {
                vstd::arithmetic::power::lemma_pow_increases(10, wei@.len(), 18);
            }
            lemma_dec_val_bound(wei@);
            assert(n < p18);
            assert(0 * (p18 as int) == 0) by (nonlinear_arith);
            lemma_fundamental_div_mod_converse(n as int, p18 as int, 0, n as int);
        }
        assert(n / p18 == dec_val(prefix));
        assert(n % p18 == dec_val(suffix));
    }
    // the whole-ether digits: the prefix without its leading zeros
    let mut k: usize = 0;
    while k < split_at && s.get_char(k) == '0'
        invariant
            s@ == wei@,
            len == wei@.len(),
            split_at <= len,
            k <= split_at,
            forall|j: int| 0 <= j < k ==> wei@[j] == '0',
        decreases split_at - k,
    {
        k = k + 1;
    }
    let mut out: String = String::new();
    if k == split_at {
        proof {
            assert(forall|j: int| 0 <= j < prefix.len() ==> prefix[j] == '0');
            lemma_dec_val_all_zeros(prefix);
            reveal_strlit("0");
            assert("0"@ =~= seq![hex_char(0)]);
            assert(dec_digits_of(0) =~= seq![hex_char(0)]);
        }
        out.append("0");
    } else {
        let ip: &str = s.substring_char(k, split_at);
        proof {
            assert(ip@ =~= wei@.subrange(k as int, split_at as int));
            let canon = wei@.subrange(k as int, split_at as int);
            assert(prefix =~= char_zeros(k as nat) + canon);
            lemma_dec_val_zero_prefix(k as nat, canon);
            assert(canon[0] == wei@[k as int]);
            assert(canon[0] != '0');
            assert(forall|i: int| 0 <= i < canon.len() ==> is_dec_digit(#[trigger] canon[i]));
            lemma_canonical_digits(canon);
        }
        out.append(ip);
    }
    proof {
        assert(out@ == dec_digits_of(n / p18));
    }
    // the fractional digits: the suffix zero-filled on the left to
    // eighteen places, then cut after the last nonzero digit
    let mut e: usize = len;
    while e > split_at && s.get_char(e - 1) == '0'
        invariant
            s@ == wei@,
            len == wei@.len(),
            split_at <= e <= len,
            forall|j: int| e <= j < len ==> wei@[j] == '0',
        decreases e,
    {
        e = e - 1;
    }
    let ghost frac_full: Seq<char> = fixed_digits(n % p18, 18);
    proof {
        assert(frac_full == char_zeros((18 - suffix.len()) as nat) + suffix) by {
            let padded = char_zeros((18 - suffix.len()) as nat) + suffix;
            lemma_dec_val_zero_prefix((18 - suffix.len()) as nat, suffix);
            assert(forall|i: int|
                0 <= i < padded.len() ==> is_dec_digit(#[trigger] padded[i]) || padded[i] == '0');
            assert(forall|i: int| 0 <= i < padded.len() ==> is_dec_digit(#[trigger] padded[i]));
            lemma_fixed_digits_exact(padded, 18);
        }
    }
    if e == split_at {
        // all fractional digits are zero: no point, no fraction
        proof {
            assert(forall|j: int|
                0 <= j < frac_full.len() ==> #[trigger] frac_full[j] == '0') by {
                assert(forall|j: int| 0 <= j < suffix.len() ==> #[trigger] suffix[j] == wei@[j
                    + split_at]);
            }
            lemma_trim_at(frac_full, 0);
            assert(frac_full.take(0) =~= Seq::<char>::empty());
            assert(out@ == eth_of_wei(n));
        }
        return out;
    }
    proof {
        reveal_strlit(".");
        assert("."@ =~= seq!['.']);
    }
    out.append(".");
    let pad: usize = 18 - (len - split_at);
    let mut z: usize = 0;
    while z < pad
        invariant
            z <= pad,
            out@ =~= dec_digits_of(n / p18) + seq!['.'] + char_zeros(z as nat),
            n / p18 == dec_val(prefix),
            p18 == pow(10, 18) as nat,
        decreases pad - z,
    {
        proof {
            reveal_strlit("0");
            assert("0"@ =~= seq!['0']);
        }
        out.append("0");
        proof {
            assert(out@ =~= dec_digits_of(n / p18) + seq!['.'] + char_zeros((z + 1) as nat));
        }
        z = z + 1;
    }
    let fp: &str = s.substring_char(split_at, e);
    out.append(fp);
    proof {
        let cut = (pad + e - split_at) as int;
        assert(fp@ =~= wei@.subrange(split_at as int, e as int));
        assert(frac_full.take(cut) =~= char_zeros(pad as nat) + wei@.subrange(
            split_at as int,
            e as int,
        ));
        assert(frac_full[cut - 1] == wei@[e - 1]);
        assert(wei@[e - 1] != '0');
        assert(forall|j: int| cut <= j < frac_full.len() ==> #[trigger] frac_full[j] == '0') by {
            assert(forall|j: int|
                cut <= j < frac_full.len() ==> #[trigger] frac_full[j] == wei@[j - pad
                    + split_at]);
        }
        lemma_trim_at(frac_full, cut);
        assert(out@ =~= dec_digits_of(n / p18) + seq!['.'] + trim_trailing_zeros(frac_full));
        assert(out@ == eth_of_wei(n));
    }
    out
}

/// Converts an ether amount, given as a decimal string with an optional
/// fractional part, to its wei value in canonical decimal: the literal
/// scaled by ten to the eighteenth, fractional places beyond the
/// eighteenth dropped.
#[verifier::rlimit(60)]
pub fn to_wei(eth: String) -> (r: String)
    requires
        is_eth_literal(eth@),
    ensures
        r@ == dec_digits_of(wei_of_eth(eth@)),
{
    let s: &str = eth.as_str();
    let len: usize = s.unicode_len();
    // find the point, if any
    let mut di: usize = 0;
    let mut has_dot: bool = false;
    while di < len && !has_dot
        invariant
            s@ == eth@,
            len == eth@.len(),
            di <= len,
            !has_dot ==> forall|j: int| 0 <= j < di ==> eth@[j] != '.',
            has_dot ==> di < len && eth@[di as int] == '.' && forall|j: int|
                0 <= j < di ==> eth@[j] != '.',
        decreases len - di + (if has_dot {
            0int
        } else {
            1int
        }),
    {
        if s.get_char(di) == '.' {
            has_dot = true;
        } else {
            di = di + 1;
        }
    }
    proof {
        if has_dot {
            crate::pack::lemma_find_first_at(eth@, '.', di as int);
        } else {
            crate::pack::lemma_find_first_at(eth@, '.', eth@.len() as int);
        }
    }
    let int_end: usize = di;
    let frac_start: usize = if has_dot {
        di + 1
    } else {
        len
    };
    let ghost ints: Seq<char> = eth_int_digits(eth@);
    let ghost frac: Seq<char> = eth_frac_digits(eth@);
    proof {
        assert(ints =~= eth@.take(int_end as int));
        assert(frac =~= eth@.skip(frac_start as int));
        assert(forall|i: int| 0 <= i < ints.len() ==> is_dec_digit(#[trigger] ints[i])) by {
            assert(forall|i: int|
                0 <= i < ints.len() ==> #[trigger] ints[i] == eth@[i] && ints[i] != '.');
        }
        assert(forall|i: int| 0 <= i < frac.len() ==> is_dec_digit(#[trigger] frac[i])) by {
            assert(forall|i: int|
                0 <= i < frac.len() ==> #[trigger] frac[i] == eth@[i + frac_start] && frac[i]
                    != '.');
        }
    }
    // all the digits of the wei value, leading zeros and all
    let mut digits: String = String::new();
    let ip: &str = s.substring_char(0, int_end);
    digits.append(ip);
    let frac_take: usize = if len - frac_start >= 18 {
        18
    } else {
        len - frac_start
    };
    let fp: &str = s.substring_char(frac_start, frac_start + frac_take);
    digits.append(fp);
    let pad: usize = 18 - frac_take;
    let mut z: usize = 0;
    while z < pad
        invariant
            z <= pad,
            digits@ =~= ints + frac.take(frac_take as int) + char_zeros(z as nat),
            ints == eth_int_digits(eth@),
            frac == eth_frac_digits(eth@),
            frac_take <= frac.len(),
        decreases pad - z,
    {
        proof {
            reveal_strlit("0");
            assert("0"@ =~= seq!['0']);
        }
        digits.append("0");
        proof {
            assert(digits@ =~= ints + frac.take(frac_take as int) + char_zeros((z + 1) as nat));
        }
        z = z + 1;
    }
    proof {
        if frac.len() >= 18 {
            assert(pad == 0);
            assert(digits@ =~= ints + eth_frac18(eth@));
        } else {
            assert(frac.take(frac_take as int) =~= frac);
            assert(digits@ =~= ints + eth_frac18(eth@));
        }
        assert(digits@ =~= ints + eth_frac18(eth@));
    }
    // canonicalise: strip the leading zeros
    let dl: usize = digits.as_str().unicode_len();
    let ds: &str = digits.as_str();
    let mut k: usize = 0;
    while k < dl && ds.get_char(k) == '0'
        invariant
            ds@ == digits@,
            dl == digits@.len(),
            k <= dl,
            forall|j: int| 0 <= j < k ==> digits@[j] == '0',
        decreases dl - k,
    {
        k = k + 1;
    }
    let ghost dseq: Seq<char> = ints + eth_frac18(eth@);
    proof {
        assert(digits@ =~= dseq);
        assert(forall|i: int| 0 <= i < eth_frac18(eth@).len() ==> is_dec_digit(
            #[trigger] eth_frac18(eth@)[i],
        )) by {
            let f18 = eth_frac18(eth@);
            assert(forall|i: int|
                0 <= i < f18.len() ==> (#[trigger] f18[i]) == (if i < frac.len() && i < 18 {
                    frac[i]
                } else {
                    '0'
                }));
        }
        assert(forall|i: int| 0 <= i < dseq.len() ==> is_dec_digit(#[trigger] dseq[i]));
    }
    if k == dl {
        let mut out: String = String::new();
        proof {
            assert(forall|j: int| 0 <= j < dseq.len() ==> dseq[j] == '0');
            lemma_dec_val_all_zeros(dseq);
            reveal_strlit("0");
            assert("0"@ =~= seq![hex_char(0)]);
            assert(dec_digits_of(0) =~= seq![hex_char(0)]);
        }
        out.append("0");
        return out;
    }
    let canon: &str = ds.substring_char(k, dl);
    proof {
        let c = dseq.subrange(k as int, dl as int);
        assert(canon@ =~= c);
        assert(dseq =~= char_zeros(k as nat) + c);
        lemma_dec_val_zero_prefix(k as nat, c);
        assert(c[0] == dseq[k as int]);
        assert(c[0] != '0');
        assert(forall|i: int| 0 <= i < c.len() ==> is_dec_digit(#[trigger] c[i]));
        lemma_canonical_digits(c);
        assert(wei_of_eth(eth@) == dec_val(c));
    }
    String::from_str(canon)
}

} // verus!
