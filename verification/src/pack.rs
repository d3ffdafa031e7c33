//! Solidity tight packing (`abi.encodePacked` semantics): one `(type,
//! value)` pair at a time, context-sensitively padded, and the top-level
//! service that concatenates the packed pairs.

use vstd::prelude::*;
use vstd::arithmetic::power::pow;
use vstd::arithmetic::power2::pow2;
use crate::errors::PackError;
use crate::hex_data::{
    bytes_of_hex,
    get_bytes,
    hex_chars_of,
    is_hex_string,
    strip_hex_prefix,
    to_utf8_bytes,
    concat,
    concat_bytes,
    lemma_concat_bytes_push,
};
use crate::numeric::{
    be_val,
    is_int_literal,
    literal_value,
    parse_big_int,
    encode_unsigned,
    encode_twos_complement,
    lemma_be_val_zero_prefix,
};
use crate::pad::{zero_seq, zero_pad_value, zero_pad_bytes};
use crate::type_parser::{TypeDescriptor, valid_type, parse_type, parse_type_spec};
use vstd::utf8::encode_utf8;

verus! {

/// The position of the first `c` in `s`, or minus one.
pub open spec fn find_first(s: Seq<char>, c: char) -> int
    decreases s.len(),
{
    if s.len() == 0 {
        -1
    } else if s[0] == c {
        0
    } else {
        let r = find_first(s.drop_first(), c);
        if r < 0 {
            -1
        } else {
            r + 1
        }
    }
}

pub proof fn lemma_find_first_range(s: Seq<char>, c: char)
    ensures
        -1 <= find_first(s, c) < s.len(),
        find_first(s, c) >= 0 ==> s[find_first(s, c)] == c,
        find_first(s, c) >= 0 ==> forall|j: int| 0 <= j < find_first(s, c) ==> s[j] != c,
        find_first(s, c) == -1 ==> forall|j: int| 0 <= j < s.len() ==> s[j] != c,
    decreases s.len(),
{
    if s.len() > 0 && s[0] != c {
        lemma_find_first_range(s.drop_first(), c);
        let r = find_first(s.drop_first(), c);
        if r >= 0 {
            assert forall|j: int| 0 <= j < r + 1 implies s[j] != c by {
                if j > 0 {
                    assert(s.drop_first()[j - 1] != c);
                }
            }
        } else {
            assert forall|j: int| 0 <= j < s.len() implies s[j] != c by {
                if j > 0 {
                    assert(s.drop_first()[j - 1] != c);
                }
            }
        }
    }
}

/// `s` split on commas, as Rust's `split(',')` splits: an empty `s` gives
/// one empty part, and every comma separates two parts.
pub open spec fn split_commas(s: Seq<char>) -> Seq<Seq<char>>
    decreases s.len(),
{
    let idx = find_first(s, ',');
    if idx < 0 {
        seq![s]
    } else if idx < s.len() {
        seq![s.take(idx)] + split_commas(s.skip(idx + 1))
    } else {
        seq![s]
    }
}

/// The bytes a value denotes in `width` big-endian bytes.
pub open spec fn nat_to_be_bytes(n: nat, width: nat) -> Seq<u8>
    decreases width,
{
    if width == 0 {
        Seq::empty()
    } else {
        nat_to_be_bytes(n / 256, (width - 1) as nat).push((n % 256) as u8)
    }
}

pub proof fn lemma_nat_to_be_bytes_len(n: nat, width: nat)
    ensures
        nat_to_be_bytes(n, width).len() == width,
    decreases width,
{
    if width > 0 {
        lemma_nat_to_be_bytes_len(n / 256, (width - 1) as nat);
    }
}

pub proof fn lemma_nat_to_be_bytes_val(n: nat, width: nat)
    requires
        n < pow(256, width),
    ensures
        be_val(nat_to_be_bytes(n, width)) == n,
    decreases width,
{
    if width == 0 {
        vstd::arithmetic::power::lemma_pow0(256);
    } else {
        let rest = nat_to_be_bytes(n / 256, (width - 1) as nat);
        lemma_nat_to_be_bytes_len(n / 256, (width - 1) as nat);
        assert(pow(256, width) == pow(256, (width - 1) as nat) * 256) by {
            vstd::arithmetic::power::lemma_pow_adds(256, (width - 1) as nat, 1);
            vstd::arithmetic::power::lemma_pow1(256);
        }
        assert(n / 256 < pow(256, (width - 1) as nat)) by (nonlinear_arith)
            requires
                n < pow(256, (width - 1) as nat) * 256,
                n >= 0,
        ;
        lemma_nat_to_be_bytes_val(n / 256, (width - 1) as nat);
        crate::numeric::lemma_be_val_push(rest, (n % 256) as u8);
        vstd::arithmetic::div_mod::lemma_fundamental_div_mod(n as int, 256);
    }
}

/// Two big-endian strings of one length and one value are the same string.
pub proof fn lemma_be_val_injective(a: Seq<u8>, b: Seq<u8>)
    requires
        a.len() == b.len(),
        be_val(a) == be_val(b),
    ensures
        a =~= b,
    decreases a.len(),
{
    if a.len() > 0 {
        assert(be_val(a) == be_val(a.drop_last()) * 256 + (a.last() as nat));
        assert(be_val(b) == be_val(b.drop_last()) * 256 + (b.last() as nat));
        assert(a.last() == b.last() && be_val(a.drop_last()) == be_val(b.drop_last())) by (
        nonlinear_arith)
            requires
                be_val(a.drop_last()) * 256 + (a.last() as nat) == be_val(b.drop_last()) * 256 + (
                b.last() as nat),
                a.last() < 256,
                b.last() < 256,
                be_val(a.drop_last()) >= 0,
                be_val(b.drop_last()) >= 0,
        ;
        lemma_be_val_injective(a.drop_last(), b.drop_last());
        assert forall|i: int| 0 <= i < a.len() implies a[i] == b[i] by {
            if i < a.len() - 1 {
                assert(a.drop_last()[i] == b.drop_last()[i]);
            }
        }
    }
}

/// What packing one value of an integer type gives: the two's-complement
/// image of the literal's value, or why not.
pub open spec fn pack_int_spec(bits: nat, signed: bool, v: Seq<char>) -> Result<Seq<u8>, PackError> {
    if !is_int_literal(v) {
        Err(PackError::InvalidNumeric)
    } else {
        let val = literal_value(v);
        if signed {
            if -(pow2((bits - 1) as nat) as int) <= val < pow2((bits - 1) as nat) as int {
                Ok(
                    nat_to_be_bytes(
                        (if val >= 0 {
                            val
                        } else {
                            val + pow2(bits) as int
                        }) as nat,
                        bits / 8,
                    ),
                )
            } else {
                Err(PackError::NumericOverflow)
            }
        } else {
            if 0 <= val < pow(256, bits / 8) {
                Ok(nat_to_be_bytes(val as nat, bits / 8))
            } else {
                Err(PackError::NumericOverflow)
            }
        }
    }
}

/// What packing one `(type, value)` pair gives, or the error it fails
/// with. `in_array` is whether the value stands as an element of an
/// enclosing array, which widens `address`, `bool` and `bytesN` to
/// 32 bytes and leaves every other type as it is.
pub open spec fn pack_spec(t: TypeDescriptor, v: Seq<char>, in_array: bool) -> Result<
    Seq<u8>,
    PackError,
>
    decreases t, 0int,
{
    match t {
        TypeDescriptor::Address => {
            if !is_hex_string(strip_hex_prefix(v)) {
                Err(PackError::InvalidHex)
            } else {
                let b = bytes_of_hex(strip_hex_prefix(v));
                if b.len() != 20 {
                    Err(PackError::InvalidBytesLength)
                } else if in_array {
                    Ok(zero_seq(12) + b)
                } else {
                    Ok(b)
                }
            }
        },
        TypeDescriptor::Bool => {
            let byte: u8 = if v == seq!['t', 'r', 'u', 'e'] {
                1
            } else {
                0
            };
            if in_array {
                Ok(zero_seq(31).push(byte))
            } else {
                Ok(seq![byte])
            }
        },
        TypeDescriptor::Utf8String => Ok(encode_utf8(v)),
        TypeDescriptor::DynamicBytes => {
            if !is_hex_string(strip_hex_prefix(v)) {
                Err(PackError::InvalidHex)
            } else {
                Ok(bytes_of_hex(strip_hex_prefix(v)))
            }
        },
        TypeDescriptor::FixedBytes(w) => {
            if !is_hex_string(strip_hex_prefix(v)) {
                Err(PackError::InvalidHex)
            } else {
                let b = bytes_of_hex(strip_hex_prefix(v));
                if b.len() != w {
                    Err(PackError::InvalidBytesLength)
                } else if in_array {
                    Ok(b + zero_seq((32 - b.len()) as nat))
                } else {
                    Ok(b)
                }
            }
        },
        TypeDescriptor::UnsignedInt(bits) => pack_int_spec(bits as nat, false, v),
        TypeDescriptor::SignedInt(bits) => pack_int_spec(bits as nat, true, v),
        TypeDescriptor::Array(e, len) => {
            let parts = split_commas(v);
            if (len matches Some(n) && n != parts.len()) {
                Err(PackError::InvalidArrayLength)
            } else {
                pack_elems_spec(*e, parts)
            }
        },
    }
}

/// Packing each element of an array in order, every one in array context,
/// stopping at the first failure.
pub open spec fn pack_elems_spec(e: TypeDescriptor, parts: Seq<Seq<char>>) -> Result<
    Seq<u8>,
    PackError,
>
    decreases e, parts.len() + 1,
{
    if parts.len() == 0 {
        Ok(Seq::empty())
    } else {
        match pack_spec(e, parts[0], true) {
            Err(er) => Err(er),
            Ok(b) => match pack_elems_spec(e, parts.drop_first()) {
                Err(er) => Err(er),
                Ok(rest) => Ok(b + rest),
            },
        }
    }
}

/// The length that packing yields, when it succeeds: a formula fixed by
/// the type, the context, and for the dynamic types the value alone.
pub open spec fn packed_length_spec(t: TypeDescriptor, v: Seq<char>, in_array: bool) -> nat
    decreases t, 0int,
{
    match t {
        TypeDescriptor::Address => if in_array {
            32
        } else {
            20
        },
        TypeDescriptor::Bool => if in_array {
            32
        } else {
            1
        },
        TypeDescriptor::Utf8String => encode_utf8(v).len(),
        TypeDescriptor::DynamicBytes => bytes_of_hex(strip_hex_prefix(v)).len(),
        TypeDescriptor::FixedBytes(w) => if in_array {
            32
        } else {
            w as nat
        },
        TypeDescriptor::UnsignedInt(bits) => bits as nat / 8,
        TypeDescriptor::SignedInt(bits) => bits as nat / 8,
        TypeDescriptor::Array(e, _len) => packed_elems_length(*e, split_commas(v)),
    }
}

/// The sum of the elements' packed lengths.
pub open spec fn packed_elems_length(e: TypeDescriptor, parts: Seq<Seq<char>>) -> nat
    decreases e, parts.len() + 1,
{
    if parts.len() == 0 {
        0
    } else {
        packed_length_spec(e, parts[0], true) + packed_elems_length(e, parts.drop_first())
    }
}

/// Every packed buffer has the length the type-determined formula gives:
/// one byte for `bool`, twenty for `address`, the declared width for
/// `bytesN`, `bits / 8` for the integer types, the byte length of the
/// value for the dynamic types — each widened to 32 in array context —
/// and the sum of the element lengths for an array.
pub proof fn lemma_packed_length(t: TypeDescriptor, v: Seq<char>, in_array: bool)
    requires
        valid_type(t),
        pack_spec(t, v, in_array) is Ok,
    ensures
        pack_spec(t, v, in_array)->Ok_0.len() == packed_length_spec(t, v, in_array),
    decreases t, 0int,
{
    match t {
        TypeDescriptor::UnsignedInt(bits) => {
            lemma_nat_to_be_bytes_len((literal_value(v)) as nat, bits as nat / 8);
        },
        TypeDescriptor::SignedInt(bits) => {
            let val = literal_value(v);
            let enc = (if val >= 0 {
                val
            } else {
                val + pow2(bits as nat) as int
            }) as nat;
            lemma_nat_to_be_bytes_len(enc, bits as nat / 8);
        },
        TypeDescriptor::Array(e, len) => {
            lemma_packed_elems_length(*e, split_commas(v));
        },
        _ => {},
    }
}

pub proof fn lemma_packed_elems_length(e: TypeDescriptor, parts: Seq<Seq<char>>)
    requires
        valid_type(e),
        pack_elems_spec(e, parts) is Ok,
    ensures
        pack_elems_spec(e, parts)->Ok_0.len() == packed_elems_length(e, parts),
    decreases e, parts.len() + 1,
{
    if parts.len() > 0 {
        lemma_packed_length(e, parts[0], true);
        lemma_packed_elems_length(e, parts.drop_first());
    }
}

/// Splits a comma-separated value into its parts.
fn split_value(s: &str) -> (r: Vec<String>)
    ensures
        r.deep_view() == split_commas(s@),
    decreases s@.len(),
{
    let len: usize = s.unicode_len();
    let mut idx: usize = 0;
    let mut found: bool = false;
    proof {
        lemma_find_first_range(s@, ',');
    }
    while idx < len && !found
        invariant
            len == s@.len(),
            idx <= len,
            !found ==> forall|j: int| 0 <= j < idx ==> s@[j] != ',',
            found ==> idx < len && s@[idx as int] == ',' && forall|j: int|
                0 <= j < idx ==> s@[j] != ',',
        decreases len - idx + (if found {
            0int
        } else {
            1int
        }),
    {
        if s.get_char(idx) == ',' {
            found = true;
        } else {
            idx = idx + 1;
        }
    }
    if !found {
        proof {
            lemma_find_first_at(s@, ',', s@.len() as int);
        }
        let mut r: Vec<String> = Vec::new();
        r.push(String::from_str(s));
        proof {
            assert(r.deep_view() =~= split_commas(s@));
        }
        return r;
    }
    proof {
        lemma_find_first_at(s@, ',', idx as int);
    }
    let head: &str = s.substring_char(0, idx);
    let tail: &str = s.substring_char(idx + 1, len);
    proof {
        assert(tail@ =~= s@.skip(idx + 1));
    }
    let mut rest: Vec<String> = split_value(tail);
    let mut r: Vec<String> = Vec::new();
    r.push(String::from_str(head));
    proof {
        assert(head@ =~= s@.take(idx as int));
        assert(r.deep_view() =~= seq![s@.take(idx as int)] + rest.deep_view().take(0));
    }
    let n: usize = rest.len();
    let mut i: usize = 0;
    while i < n
        invariant
            n == rest@.len(),
            i <= n,
            r@.len() == i + 1,
            r.deep_view() =~= seq![s@.take(idx as int)] + rest.deep_view().take(i as int),
        decreases n - i,
    {
        let part: String = rest[i].clone();
        let ghost pre_dv: Seq<Seq<char>> = r.deep_view();
        proof {
            assert(part@ == rest.deep_view()[i as int]);
        }
        r.push(part);
        proof {
            assert(r.deep_view() =~= pre_dv.push(rest.deep_view()[i as int]));
            assert(rest.deep_view().take(i + 1 as int) =~= rest.deep_view().take(i as int).push(
                rest.deep_view()[i as int],
            ));
            assert(r.deep_view() =~= seq![s@.take(idx as int)] + rest.deep_view().take(
                i + 1 as int,
            ));
        }
        i = i + 1;
    }
    proof {
        assert(rest.deep_view().take(n as int) =~= rest.deep_view());
        assert(r.deep_view() =~= split_commas(s@));
    }
    r
}

/// Where the scan stopped is where `find_first` points.
pub proof fn lemma_find_first_at(s: Seq<char>, c: char, i: int)
    requires
        0 <= i <= s.len(),
        forall|j: int| 0 <= j < i ==> s[j] != c,
        i < s.len() ==> s[i] == c,
    ensures
        i < s.len() ==> find_first(s, c) == i,
        i == s.len() ==> find_first(s, c) == -1,
    decreases i,
{
    if s.len() > 0 {
        if i == 0 {
        } else {
            assert(forall|j: int| 0 <= j < i - 1 ==> s.drop_first()[j] != c);
            assert(i - 1 < s.drop_first().len() ==> s.drop_first()[i - 1] == c);
            lemma_find_first_at(s.drop_first(), c, i - 1);
        }
    }
}

/// Packs one value of the given type. `in_array` says whether the value
/// stands as an element of an enclosing array; that widens `address` and
/// `bool` (left) and `bytesN` (right) to 32 bytes and changes nothing
/// else.
pub fn pack(type_: &TypeDescriptor, value: &str, in_array: bool) -> (r: Result<Vec<u8>, PackError>)
    requires
        valid_type(*type_),
    ensures
        (match r {
            Ok(b) => pack_spec(*type_, value@, in_array) == Ok::<Seq<u8>, PackError>(b@),
            Err(e) => pack_spec(*type_, value@, in_array) == Err::<Seq<u8>, PackError>(e),
        }),
    decreases *type_,
{
    match type_ {
        TypeDescriptor::Address => {
            let b: Vec<u8> = match get_bytes(value) {
                Ok(b) => b,
                Err(e) => {
                    return Err(e);
                },
            };
            if b.len() != 20 {
                return Err(PackError::InvalidBytesLength);
            }
            if in_array {
                let padded = zero_pad_value(b.as_slice(), 32);
                match padded {
                    Ok(p) => {
                        proof {
                            assert(p@ =~= zero_seq(12) + bytes_of_hex(strip_hex_prefix(value@)));
                        }
                        return Ok(p);
                    },
                    Err(_) => {
                        proof {
                            assert(false);
                        }
                        return Err(PackError::BufferOverrun);
                    },
                }
            }
            Ok(b)
        },
        TypeDescriptor::Bool => {
            proof {
                reveal_strlit("true");
                assert("true"@ =~= seq!['t', 'r', 'u', 'e']);
            }
            let is_true: bool = crate::type_parser::str_eq_str(value, "true");
            let byte: u8 = if is_true {
                1
            } else {
                0
            };
            let mut b: Vec<u8> = Vec::new();
            if in_array {
                let mut i: usize = 0;
                while i < 31
                    invariant
                        i <= 31,
                        b@ =~= zero_seq(i as nat),
                    decreases 31 - i,
                {
                    b.push(0u8);
                    proof {
                        assert(b@ =~= zero_seq((i + 1) as nat));
                    }
                    i = i + 1;
                }
                b.push(byte);
                proof {
                    assert(b@ =~= zero_seq(31).push(byte));
                }
                return Ok(b);
            }
            b.push(byte);
            proof {
                assert(b@ =~= seq![byte]);
            }
            Ok(b)
        },
        TypeDescriptor::Utf8String => Ok(to_utf8_bytes(value)),
        TypeDescriptor::DynamicBytes => get_bytes(value),
        TypeDescriptor::FixedBytes(w) => {
            let b: Vec<u8> = match get_bytes(value) {
                Ok(b) => b,
                Err(e) => {
                    return Err(e);
                },
            };
            if b.len() != *w {
                return Err(PackError::InvalidBytesLength);
            }
            if in_array {
                match zero_pad_bytes(b.as_slice(), 32) {
                    Ok(p) => {
                        proof {
                            assert(p@ =~= bytes_of_hex(strip_hex_prefix(value@)) + zero_seq(
                                (32 - b@.len()) as nat,
                            ));
                        }
                        return Ok(p);
                    },
                    Err(_) => {
                        proof {
                            assert(false);
                        }
                        return Err(PackError::BufferOverrun);
                    },
                }
            }
            Ok(b)
        },
        TypeDescriptor::UnsignedInt(bits) => pack_int(*bits, false, value),
        TypeDescriptor::SignedInt(bits) => pack_int(*bits, true, value),
        TypeDescriptor::Array(e, len) => {
            let parts: Vec<String> = split_value(value);
            let ghost sparts: Seq<Seq<char>> = split_commas(value@);
            proof {
                assert(parts.deep_view() == sparts);
                assert(parts@.len() == sparts.len());
            }
            match len {
                Some(n) => {
                    if *n != parts.len() {
                        return Err(PackError::InvalidArrayLength);
                    }
                },
                None => {},
            }
            let m: usize = parts.len();
            proof {
                assert(pack_spec(*type_, value@, in_array) == pack_elems_spec(**e, sparts));
            }
            let mut out: Vec<u8> = Vec::new();
            let mut j: usize = 0;
            proof {
                assert(sparts.skip(0) =~= sparts);
                match pack_elems_spec(**e, sparts) {
                    Ok(full) => {
                        assert(Seq::<u8>::empty() + full =~= full);
                    },
                    Err(_) => {},
                }
            }
            while j < m
                invariant
                    valid_type(*type_),
                    *type_ == TypeDescriptor::Array(*e, *len),
                    valid_type(**e),
                    m == parts@.len(),
                    parts.deep_view() == sparts,
                    sparts.len() == m,
                    j <= m,
                    pack_spec(*type_, value@, in_array) == pack_elems_spec(**e, sparts),
                    pack_elems_spec(**e, sparts) == (match pack_elems_spec(
                        **e,
                        sparts.skip(j as int),
                    ) {
                        Ok(rest) => Ok::<Seq<u8>, PackError>(out@ + rest),
                        Err(er) => Err::<Seq<u8>, PackError>(er),
                    }),
                decreases m - j,
            {
                let part: &String = &parts[j];
                proof {
                    assert(part@ == parts.deep_view()[j as int]);
                    assert(sparts.skip(j as int)[0] == sparts[j as int]);
                    assert(sparts.skip(j as int).drop_first() =~= sparts.skip(j + 1));
                }
                match pack(e, part.as_str(), true) {
                    Ok(mut b) => {
                        let ghost out_pre: Seq<u8> = out@;
                        let ghost b_bytes: Seq<u8> = b@;
                        proof {
                            let rest_after = pack_elems_spec(**e, sparts.skip(j + 1));
                            if rest_after is Ok {
                                assert((out_pre + b_bytes) + rest_after->Ok_0 =~= out_pre + (
                                b_bytes + rest_after->Ok_0));
                            }
                        }
                        out.append(&mut b);
                        proof {
                            assert(out@ == out_pre + b_bytes);
                        }
                    },
                    Err(er) => {
                        return Err(er);
                    },
                }
                j = j + 1;
            }
            proof {
                assert(sparts.skip(m as int) =~= Seq::<Seq<char>>::empty());
                assert(pack_elems_spec(**e, sparts.skip(m as int)) == Ok::<Seq<u8>, PackError>(
                    Seq::empty(),
                ));
                assert(out@ + Seq::<u8>::empty() =~= out@);
            }
            Ok(out)
        },
    }
}

/// Packs one integer literal into `bits / 8` big-endian bytes, signed or
/// unsigned, rejecting values outside the width.
fn pack_int(bits: usize, signed: bool, value: &str) -> (r: Result<Vec<u8>, PackError>)
    requires
        bits % 8 == 0,
        8 <= bits <= 256,
    ensures
        (match r {
            Ok(b) => pack_int_spec(bits as nat, signed, value@) == Ok::<Seq<u8>, PackError>(b@),
            Err(e) => pack_int_spec(bits as nat, signed, value@) == Err::<Seq<u8>, PackError>(e),
        }),
{
    let v: crate::numeric::BigIntValue = match parse_big_int(value) {
        Ok(v) => v,
        Err(e) => {
            return Err(e);
        },
    };
    let w: usize = bits / 8;
    proof {
        crate::numeric::lemma_byte_capacity(w as nat);
        assert(8 * (w as nat) == bits as nat);
        assert(pow2(bits as nat) == pow(256, w as nat));
        assert(pow2((bits - 1) as nat) == 128 * pow(256, (w - 1) as nat));
    }
    let enc: Vec<u8> = if signed {
        match encode_twos_complement(&v, bits) {
            Ok(b) => b,
            Err(e) => {
                return Err(e);
            },
        }
    } else {
        match encode_unsigned(&v, w) {
            Ok(b) => b,
            Err(e) => {
                return Err(e);
            },
        }
    };
    // left-pad to the full width; a negative signed value is already full
    match zero_pad_value(enc.as_slice(), w) {
        Ok(p) => {
            proof {
                let val = v.spec_value();
                let target: nat = (if val >= 0 {
                    val
                } else {
                    val + pow2(bits as nat) as int
                }) as nat;
                assert(8 * (w as nat) == bits as nat);
                assert(pow2(bits as nat) == pow(256, w as nat));
                lemma_be_val_zero_prefix((w - enc@.len()) as nat, enc@);
                assert(zero_seq((w - enc@.len()) as nat) + enc@ =~= p@);
                assert(be_val(p@) == be_val(enc@));
                if v.negative {
                    crate::numeric::lemma_be_val_minimal_lower(v.magnitude@);
                    vstd::arithmetic::power::lemma_pow_positive(
                        256,
                        (v.magnitude@.len() - 1) as nat,
                    );
                    assert(val < 0);
                }
                if signed {
                    if v.negative {
                        assert(be_val(enc@) as int == val + pow2(bits as nat) as int);
                        assert(be_val(enc@) == target);
                    } else {
                        assert(val >= 0);
                        assert(be_val(enc@) == target);
                    }
                    assert(target < pow(256, w as nat)) by {
                        if val >= 0 {
                            assert(val < pow2((bits - 1) as nat) as int);
                            assert(pow2((bits - 1) as nat) * 2 == pow2(bits as nat));
                        }
                    }
                } else {
                    assert(be_val(enc@) == target);
                    assert(target < pow(256, w as nat));
                }
                lemma_nat_to_be_bytes_len(target, w as nat);
                lemma_nat_to_be_bytes_val(target, w as nat);
                lemma_be_val_injective(p@, nat_to_be_bytes(target, w as nat));
                assert(p@ == nat_to_be_bytes(target, w as nat));
            }
            Ok(p)
        },
        Err(_) => {
            proof {
                assert(false);
            }
            Err(PackError::BufferOverrun)
        },
    }
}

/// What the top-level packing of parallel type and value lists gives:
/// each pair packed standalone, in order, concatenated; or the first
/// failure.
pub open spec fn pack_all_spec(ts: Seq<Seq<char>>, vs: Seq<Seq<char>>) -> Result<Seq<u8>, PackError>
    decreases ts.len(),
{
    if ts.len() == 0 {
        Ok(Seq::empty())
    } else {
        match parse_type_spec(ts[0]) {
            None => Err(PackError::InvalidType),
            Some(t) => match pack_spec(t, vs[0], false) {
                Err(er) => Err(er),
                Ok(b) => match pack_all_spec(ts.drop_first(), vs.drop_first()) {
                    Err(er) => Err(er),
                    Ok(rest) => Ok(b + rest),
                },
            },
        }
    }
}

/// What `solidity_pack` returns: `ArityMismatch` for lists of different
/// lengths, else the packed pairs concatenated and spelled as a
/// `0x`-prefixed hex string.
pub open spec fn solidity_pack_spec(ts: Seq<Seq<char>>, vs: Seq<Seq<char>>) -> Result<
    Seq<char>,
    PackError,
> {
    if ts.len() != vs.len() {
        Err(PackError::ArityMismatch)
    } else {
        match pack_all_spec(ts, vs) {
            Err(er) => Err(er),
            Ok(b) => Ok(seq!['0', 'x'] + hex_chars_of(b)),
        }
    }
}

/// Tightly packs parallel lists of type strings and value literals, as
/// Solidity's `abi.encodePacked` does, into one `0x`-prefixed hex string.
/// Fails with `ArityMismatch` when the lists differ in length, and with
/// the first pair's failure otherwise.
pub fn solidity_pack(types: Vec<String>, values: Vec<String>) -> (r: Result<String, PackError>)
    ensures
        (match r {
            Ok(s) => solidity_pack_spec(types.deep_view(), values.deep_view()) == Ok::<
                Seq<char>,
                PackError,
            >(s@),
            Err(e) => solidity_pack_spec(types.deep_view(), values.deep_view()) == Err::<
                Seq<char>,
                PackError,
            >(e),
        }),
{
    if types.len() != values.len() {
        proof {
            assert(types.deep_view().len() != values.deep_view().len());
        }
        return Err(PackError::ArityMismatch);
    }
    let ghost ts: Seq<Seq<char>> = types.deep_view();
    let ghost vs: Seq<Seq<char>> = values.deep_view();
    let n: usize = types.len();
    let mut tight: Vec<Vec<u8>> = Vec::new();
    let mut i: usize = 0;
    proof {
        assert(ts.skip(0) =~= ts);
        assert(vs.skip(0) =~= vs);
        assert(tight.deep_view() =~= Seq::<Seq<u8>>::empty());
        match pack_all_spec(ts, vs) {
            Ok(full) => {
                assert(concat_bytes(tight.deep_view()) + full =~= full);
            },
            Err(_) => {},
        }
    }
    while i < n
        invariant
            ts == types.deep_view(),
            vs == values.deep_view(),
            n == types@.len(),
            n == values@.len(),
            ts.len() == n,
            vs.len() == n,
            i <= n,
            pack_all_spec(ts, vs) == (match pack_all_spec(ts.skip(i as int), vs.skip(i as int)) {
                Ok(rest) => Ok::<Seq<u8>, PackError>(concat_bytes(tight.deep_view()) + rest),
                Err(er) => Err::<Seq<u8>, PackError>(er),
            }),
        decreases n - i,
    {
        proof {
            assert(ts.skip(i as int)[0] == ts[i as int]);
            assert(vs.skip(i as int)[0] == vs[i as int]);
            assert(ts.skip(i as int).drop_first() =~= ts.skip(i + 1));
            assert(vs.skip(i as int).drop_first() =~= vs.skip(i + 1));
            assert(types@[i as int]@ == ts[i as int]);
            assert(values@[i as int]@ == vs[i as int]);
        }
        let t: TypeDescriptor = match parse_type(types[i].as_str()) {
            Ok(t) => t,
            Err(e) => {
                return Err(e);
            },
        };
        let packed: Vec<u8> = match pack(&t, values[i].as_str(), false) {
            Ok(b) => b,
            Err(e) => {
                return Err(e);
            },
        };
        let ghost old_tight: Seq<Seq<u8>> = tight.deep_view();
        let ghost packed_bytes: Seq<u8> = packed@;
        proof {
            assert(packed.deep_view() =~= packed_bytes);
            let rest_after = pack_all_spec(ts.skip(i + 1), vs.skip(i + 1));
            lemma_concat_bytes_push(old_tight, packed_bytes);
            if rest_after is Ok {
                assert((concat_bytes(old_tight) + packed_bytes) + rest_after->Ok_0 =~= concat_bytes(
                    old_tight,
                ) + (packed_bytes + rest_after->Ok_0));
            }
        }
        tight.push(packed);
        proof {
            assert(tight.deep_view() =~= old_tight.push(packed_bytes));
        }
        i = i + 1;
    }
    proof {
        assert(ts.skip(n as int) =~= Seq::<Seq<char>>::empty());
        assert(vs.skip(n as int) =~= Seq::<Seq<char>>::empty());
        assert(concat_bytes(tight.deep_view()) + Seq::<u8>::empty() =~= concat_bytes(
            tight.deep_view(),
        ));
    }
    let out: String = concat(&tight);
    Ok(out)
}

/// Packs one `(type string, value)` pair: the type is parsed first, and
/// `is_array`, `true` when the value stands inside an array, defaults to
/// `false`.
pub fn _pack(type_: &str, value: &str, is_array: Option<bool>) -> (r: Result<Vec<u8>, PackError>)
    ensures
        (match parse_type_spec(type_@) {
            Option::None => r == Err::<Vec<u8>, PackError>(PackError::InvalidType),
            Option::Some(t) => (match r {
                Ok(b) => pack_spec(t, value@, is_array == Some(true)) == Ok::<Seq<u8>, PackError>(
                    b@,
                ),
                Err(e) => pack_spec(t, value@, is_array == Some(true)) == Err::<Seq<u8>, PackError>(
                    e,
                ),
            }),
        }),
{
    let a: bool = match is_array {
        Some(b) => b,
        None => false,
    };
    let t: TypeDescriptor = match parse_type(type_) {
        Ok(t) => t,
        Err(e) => {
            return Err(e);
        },
    };
    pack(&t, value, a)
}

/// Round trip through the packing pipeline: the bytes a signed integer
/// type packs, read back as `bits`-bit two's complement, give back the
/// literal's value, over the whole representable range.
pub proof fn lemma_pack_int_round_trip(bits: nat, v: Seq<char>)
    requires
        bits % 8 == 0,
        8 <= bits <= 256,
        pack_int_spec(bits, true, v) is Ok,
    ensures
        crate::numeric::twos_complement_val(pack_int_spec(bits, true, v)->Ok_0, bits)
            == literal_value(v),
{
    let val = literal_value(v);
    let w = bits / 8;
    crate::numeric::lemma_byte_capacity(w);
    assert(8 * w == bits);
    let enc: nat = (if val >= 0 {
        val
    } else {
        val + pow2(bits) as int
    }) as nat;
    assert(enc < pow(256, w)) by {
        if val >= 0 {
            assert(val < pow2((bits - 1) as nat) as int);
            assert(pow2((bits - 1) as nat) * 2 == pow2(bits));
        }
    }
    lemma_nat_to_be_bytes_len(enc, w);
    lemma_nat_to_be_bytes_val(enc, w);
    crate::numeric::lemma_twos_complement_round_trip(nat_to_be_bytes(enc, w), val, bits);
}

} // verus!
