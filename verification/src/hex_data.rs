//! Hex data strings: decoding `0x`-prefixed (or bare) hex literals to bytes
//! and encoding bytes back to lowercase hex.

use vstd::prelude::*;
use vstd::string::StringSliceAdditionalSpecFns;
use crate::errors::PackError;

verus! {

/// Whether `c` is an ASCII hex digit, either case.
pub open spec fn is_hex_digit(c: char) -> bool {
    (48 <= c as u32 && c as u32 <= 57)  // '0'..'9'
    || (97 <= c as u32 && c as u32 <= 102)  // 'a'..'f'
    || (65 <= c as u32 && c as u32 <= 70)  // 'A'..'F'
}

/// The numeric value of the hex digit `c`.
pub open spec fn hex_digit_value(c: char) -> u8 {
    if 48 <= c as u32 && c as u32 <= 57 {
        (c as u32 - 48) as u8
    } else if 97 <= c as u32 && c as u32 <= 102 {
        (c as u32 - 87) as u8
    } else if 65 <= c as u32 && c as u32 <= 70 {
        (c as u32 - 55) as u8
    } else {
        0
    }
}

/// The lowercase hex digit for a value below sixteen.
pub open spec fn hex_char(d: u8) -> char {
    if d == 0 { '0' } else if d == 1 { '1' } else if d == 2 { '2' } else if d == 3 { '3' }
    else if d == 4 { '4' } else if d == 5 { '5' } else if d == 6 { '6' } else if d == 7 { '7' }
    else if d == 8 { '8' } else if d == 9 { '9' } else if d == 10 { 'a' } else if d == 11 { 'b' }
    else if d == 12 { 'c' } else if d == 13 { 'd' } else if d == 14 { 'e' } else { 'f' }
}

/// The lowercase hex representation of `b`, two digits per byte.
pub open spec fn hex_chars_of(b: Seq<u8>) -> Seq<char> {
    Seq::new(
        b.len() * 2,
        |i: int| if i % 2 == 0 { hex_char(b[i / 2] >> 4) } else { hex_char(b[i / 2] & 0x0f) },
    )
}

/// `s` without a leading `0x`, if it has one.
pub open spec fn strip_hex_prefix(s: Seq<char>) -> Seq<char> {
    if s.len() >= 2 && s[0] == '0' && s[1] == 'x' {
        s.skip(2)
    } else {
        s
    }
}

/// Whether `s` is a decodable hex digit string: an even number of hex digits.
pub open spec fn is_hex_string(s: Seq<char>) -> bool {
    s.len() % 2 == 0 && forall|i: int| 0 <= i < s.len() ==> is_hex_digit(#[trigger] s[i])
}

/// The bytes that the hex digit string `s` denotes.
pub open spec fn bytes_of_hex(s: Seq<char>) -> Seq<u8> {
    Seq::new(
        s.len() / 2,
        |i: int| (16 * hex_digit_value(s[2 * i]) + hex_digit_value(s[2 * i + 1])) as u8,
    )
}

/// The concatenation of a sequence of byte strings.
pub open spec fn concat_bytes(s: Seq<Seq<u8>>) -> Seq<u8>
    decreases s.len(),
{
    if s.len() == 0 {
        Seq::empty()
    } else {
        s[0] + concat_bytes(s.drop_first())
    }
}

pub proof fn lemma_concat_bytes_push(s: Seq<Seq<u8>>, x: Seq<u8>)
    ensures
        concat_bytes(s.push(x)) =~= concat_bytes(s) + x,
    decreases s.len(),
{
    reveal_with_fuel(concat_bytes, 3);
    if s.len() == 0 {
        assert(s.push(x).drop_first() =~= Seq::<Seq<u8>>::empty());
        assert(s.push(x)[0] =~= x);
        assert(x + Seq::<u8>::empty() =~= x);
    } else {
        assert(s.push(x).drop_first() =~= s.drop_first().push(x));
        lemma_concat_bytes_push(s.drop_first(), x);
        assert(s.push(x)[0] =~= s[0]);
        assert(s[0] + (concat_bytes(s.drop_first()) + x) =~= (s[0] + concat_bytes(
            s.drop_first(),
        )) + x);
    }
}

pub proof fn lemma_hex_chars_of_concat(a: Seq<u8>, b: Seq<u8>)
    ensures
        hex_chars_of(a + b) =~= hex_chars_of(a) + hex_chars_of(b),
{
    assert forall|i: int| 0 <= i < (a + b).len() * 2 implies hex_chars_of(a + b)[i] == (
    hex_chars_of(a) + hex_chars_of(b))[i] by {
        if i < a.len() * 2 {
            assert((a + b)[i / 2] == a[i / 2]);
        } else {
            assert(i / 2 - a.len() == (i - a.len() * 2) / 2);
            assert((a + b)[i / 2] == b[i / 2 - a.len()]);
            assert((i - a.len() * 2) % 2 == i % 2);
        }
    }
}

pub proof fn lemma_u8_nibbles_below_16(b: u8)
    ensures
        (b >> 4) < 16,
        (b & 0x0f) < 16,
{
    assert((b >> 4) < 16 && (b & 0x0f) < 16) by (bit_vector);
}

/// The numeric value of a hex digit, or `None` for any other character.
pub fn hex_val(c: char) -> (r: Option<u8>)
    ensures
        r is Some <==> is_hex_digit(c),
        r matches Some(v) ==> v == hex_digit_value(c) && v < 16,
{
    let u: u32 = c as u32;
    if 48 <= u && u <= 57 {
        Some((u - 48) as u8)
    } else if 97 <= u && u <= 102 {
        Some((u - 87) as u8)
    } else if 65 <= u && u <= 70 {
        Some((u - 55) as u8)
    } else {
        None
    }
}

/// The lowercase hex digit character for `d`.
pub fn hex_char_str(d: u8) -> (r: &'static str)
    requires
        d < 16,
    ensures
        r@ =~= seq![hex_char(d)],
{
    proof {
        reveal_strlit("0");
        reveal_strlit("1");
        reveal_strlit("2");
        reveal_strlit("3");
        reveal_strlit("4");
        reveal_strlit("5");
        reveal_strlit("6");
        reveal_strlit("7");
        reveal_strlit("8");
        reveal_strlit("9");
        reveal_strlit("a");
        reveal_strlit("b");
        reveal_strlit("c");
        reveal_strlit("d");
        reveal_strlit("e");
        reveal_strlit("f");
    }
    match d {
        0 => "0",
        1 => "1",
        2 => "2",
        3 => "3",
        4 => "4",
        5 => "5",
        6 => "6",
        7 => "7",
        8 => "8",
        9 => "9",
        10 => "a",
        11 => "b",
        12 => "c",
        13 => "d",
        14 => "e",
        _ => "f",
    }
}

/// Decodes a hex data string, with or without a `0x` prefix, to bytes.
///
/// Fails with `InvalidHex` when the digits are odd in number or any
/// character is not a hex digit.
pub fn get_bytes(value: &str) -> (r: Result<Vec<u8>, PackError>)
    ensures
        r is Ok <==> is_hex_string(strip_hex_prefix(value@)),
        r matches Ok(b) ==> b@ =~= bytes_of_hex(strip_hex_prefix(value@)),
        r matches Err(e) ==> e == PackError::InvalidHex,
{
    let len: usize = value.unicode_len();
    let start: usize = if len >= 2 && value.get_char(0) == '0' && value.get_char(1) == 'x' {
        2
    } else {
        0
    };
    let ghost stripped: Seq<char> = strip_hex_prefix(value@);
    proof {
        assert(stripped =~= value@.skip(start as int));
    }
    let n: usize = len - start;
    if n % 2 != 0 {
        return Err(PackError::InvalidHex);
    }
    let mut out: Vec<u8> = Vec::new();
    let mut k: usize = 0;
    while k < n / 2
        invariant
            value@.len() == len,
            start + n == len,
            n % 2 == 0,
            k <= n / 2,
            stripped == strip_hex_prefix(value@),
            stripped =~= value@.skip(start as int),
            out@ =~= bytes_of_hex(stripped.take(2 * k as int)),
            forall|j: int| 0 <= j < 2 * k ==> is_hex_digit(#[trigger] stripped[j]),
        decreases n / 2 - k,
    {
        let c1: char = value.get_char(start + 2 * k);
        let c2: char = value.get_char(start + 2 * k + 1);
        proof {
            assert(stripped[2 * (k as int)] == c1);
            assert(stripped[2 * (k as int) + 1] == c2);
        }
        let v1: u8 = match hex_val(c1) {
            Some(v) => v,
            None => {
                proof {
                    assert(0 <= 2 * (k as int) < stripped.len());
                    assert(!is_hex_digit(stripped[2 * (k as int)]));
                    assert(!is_hex_string(stripped));
                }
                return Err(PackError::InvalidHex);
            },
        };
        let v2: u8 = match hex_val(c2) {
            Some(v) => v,
            None => {
                proof {
                    assert(0 <= 2 * (k as int) + 1 < stripped.len());
                    assert(!is_hex_digit(stripped[2 * (k as int) + 1]));
                    assert(!is_hex_string(stripped));
                }
                return Err(PackError::InvalidHex);
            },
        };
        out.push(16 * v1 + v2);
        proof {
            assert(out@ =~= bytes_of_hex(stripped.take(2 * (k + 1) as int)));
        }
        k = k + 1;
    }
    proof {
        assert(stripped.take(2 * (k as int)) =~= stripped);
    }
    Ok(out)
}

/// Encodes bytes as a lowercase hex digit string, with no prefix.
pub fn hexlify(value: &[u8]) -> (r: String)
    ensures
        r@ =~= hex_chars_of(value@),
{
    let mut r: String = String::new();
    let n: usize = value.len();
    let mut i: usize = 0;
    while i < n
        invariant
            n == value@.len(),
            i <= n,
            r@ =~= hex_chars_of(value@.take(i as int)),
        decreases n - i,
    {
        let b: u8 = value[i];
        proof {
            lemma_u8_nibbles_below_16(b);
        }
        r.append(hex_char_str(b >> 4));
        r.append(hex_char_str(b & 0x0f));
        proof {
            assert(r@ =~= hex_chars_of(value@.take(i + 1 as int)));
        }
        i = i + 1;
    }
    proof {
        assert(value@.take(n as int) =~= value@);
    }
    r
}

/// Concatenates byte strings into one `0x`-prefixed hex data string.
pub fn concat(values: &Vec<Vec<u8>>) -> (r: String)
    ensures
        r@ =~= seq!['0', 'x'] + hex_chars_of(concat_bytes(values.deep_view())),
{
    let mut r: String = String::from_str("0x");
    proof {
        reveal_strlit("0x");
        assert(r@ =~= seq!['0', 'x']);
        assert(values.deep_view().take(0) =~= Seq::<Seq<u8>>::empty());
    }
    let n: usize = values.len();
    let mut i: usize = 0;
    while i < n
        invariant
            n == values@.len(),
            values.deep_view().len() == n,
            i <= n,
            r@ =~= seq!['0', 'x'] + hex_chars_of(concat_bytes(values.deep_view().take(i as int))),
        decreases n - i,
    {
        let h: String = hexlify(values[i].as_slice());
        r.append(h.as_str());
        proof {
            let dv = values.deep_view();
            assert(dv.take(i + 1 as int) =~= dv.take(i as int).push(dv[i as int]));
            lemma_concat_bytes_push(dv.take(i as int), dv[i as int]);
            lemma_hex_chars_of_concat(concat_bytes(dv.take(i as int)), dv[i as int]);
            assert(values[i as int]@ == dv[i as int]);
        }
        i = i + 1;
    }
    proof {
        assert(values.deep_view().take(n as int) =~= values.deep_view());
    }
    r
}

/// The byte length of a hex data string.
pub fn data_length(value: &str) -> (r: Result<usize, PackError>)
    ensures
        r is Ok <==> is_hex_string(strip_hex_prefix(value@)),
        r matches Ok(n) ==> n == bytes_of_hex(strip_hex_prefix(value@)).len(),
        r matches Err(e) ==> e == PackError::InvalidHex,
{
    match get_bytes(value) {
        Ok(b) => Ok(b.len()),
        Err(e) => Err(e),
    }
}

/// The UTF-8 bytes of a string literal.
pub fn to_utf8_bytes(value: &str) -> (r: Vec<u8>)
    ensures
        r@ == value.spec_bytes(),
{
    value.as_bytes_vec()
}

} // verus!
