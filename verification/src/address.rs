//! EIP-55 checksum addresses: the mixed-case form of a 20-byte address,
//! derived from the Keccak-256 digest of its lowercase hex spelling.

use vstd::prelude::*;
use crate::hex_data::{is_hex_digit, strip_hex_prefix};

verus! {

/// What `ethers_core::utils::keccak256` returns on the given bytes: a
/// digest determined by the input alone.
pub uninterp spec fn keccak256_of(b: Seq<u8>) -> Seq<u8>;

/// Relies on `ethers_core::utils::keccak256`: the Keccak-256 digest of the
/// input, exactly 32 bytes, a function of the input bytes alone.
#[verifier::external_body]
pub(crate) fn keccak256(input: &Vec<u8>) -> (r: Vec<u8>)
    ensures
        r@ == keccak256_of(input@),
        r@.len() == 32,
{
    ethers_core::utils::keccak256(input.as_slice()).to_vec()
}

/// The lowercase form of an uppercase hex digit; other characters stay.
pub open spec fn lower_hex(c: char) -> char {
    if c == 'A' { 'a' } else if c == 'B' { 'b' } else if c == 'C' { 'c' }
    else if c == 'D' { 'd' } else if c == 'E' { 'e' } else if c == 'F' { 'f' }
    else { c }
}

/// The uppercase form of a lowercase hex digit; other characters stay.
pub open spec fn upper_hex(c: char) -> char {
    if c == 'a' { 'A' } else if c == 'b' { 'B' } else if c == 'c' { 'C' }
    else if c == 'd' { 'D' } else if c == 'e' { 'E' } else if c == 'f' { 'F' }
    else { c }
}

/// The ASCII code of `c`, for characters below 256.
pub open spec fn ascii_byte(c: char) -> u8 {
    (c as u32) as u8
}

/// `s` lowercased character by character, hex-digit-wise.
pub open spec fn lowercase_seq(s: Seq<char>) -> Seq<char> {
    Seq::new(s.len(), |i: int| lower_hex(s[i]))
}

/// The ASCII bytes of `s`.
pub open spec fn ascii_bytes_of(s: Seq<char>) -> Seq<u8> {
    Seq::new(s.len(), |i: int| ascii_byte(s[i]))
}

/// The `i`-th nibble of the digest `h`: the high half of `h[i/2]` for even
/// `i`, the low half for odd `i`.
pub open spec fn digest_nibble(h: Seq<u8>, i: int) -> u8 {
    if i % 2 == 0 {
        h[i / 2] >> 4
    } else {
        h[i / 2] & 0x0f
    }
}

/// A hex address: an optional `0x` prefix and exactly 40 hex digits.
pub open spec fn is_address_string(s: Seq<char>) -> bool {
    strip_hex_prefix(s).len() == 40 && forall|i: int|
        0 <= i < 40 ==> is_hex_digit(#[trigger] strip_hex_prefix(s)[i])
}

/// The EIP-55 checksummed spelling of the address `s`: its 40 hex digits
/// lowercased, each digit uppercased again exactly where the matching
/// nibble of the Keccak-256 digest of the lowercase ASCII spelling is
/// eight or more, with `0x` put back in front.
pub open spec fn checksum_spec(s: Seq<char>) -> Seq<char> {
    let low = lowercase_seq(strip_hex_prefix(s));
    let h = keccak256_of(ascii_bytes_of(low));
    seq!['0', 'x'] + Seq::new(
        low.len(),
        |i: int| if digest_nibble(h, i) >= 8 {
            upper_hex(low[i])
        } else {
            low[i]
        },
    )
}

/// Lowercases an uppercase hex digit.
fn to_lower_hex(c: char) -> (r: char)
    ensures
        r == lower_hex(c),
{
    match c {
        'A' => 'a',
        'B' => 'b',
        'C' => 'c',
        'D' => 'd',
        'E' => 'e',
        'F' => 'f',
        _ => c,
    }
}

/// Uppercases a lowercase hex digit.
fn to_upper_hex(c: char) -> (r: char)
    ensures
        r == upper_hex(c),
{
    match c {
        'a' => 'A',
        'b' => 'B',
        'c' => 'C',
        'd' => 'D',
        'e' => 'E',
        'f' => 'F',
        _ => c,
    }
}

/// A one-character string for any hex digit, either case.
fn hex_digit_str(c: char) -> (r: &'static str)
    requires
        is_hex_digit(c),
    ensures
        r@ =~= seq![c],
{
    proof {
        reveal_strlit("0");
        reveal_strlit("1");
        reveal_strlit("2");
        reveal_strlit("3");
        reveal_strlit("4");
        reveal_strlit("5");
        reveal_strlit("6");
        reveal_strlit("7");
        reveal_strlit("8");
        reveal_strlit("9");
        reveal_strlit("a");
        reveal_strlit("b");
        reveal_strlit("c");
        reveal_strlit("d");
        reveal_strlit("e");
        reveal_strlit("f");
        reveal_strlit("A");
        reveal_strlit("B");
        reveal_strlit("C");
        reveal_strlit("D");
        reveal_strlit("E");
        reveal_strlit("F");
    }
    match c {
        '0' => "0",
        '1' => "1",
        '2' => "2",
        '3' => "3",
        '4' => "4",
        '5' => "5",
        '6' => "6",
        '7' => "7",
        '8' => "8",
        '9' => "9",
        'a' => "a",
        'b' => "b",
        'c' => "c",
        'd' => "d",
        'e' => "e",
        'f' => "f",
        'A' => "A",
        'B' => "B",
        'C' => "C",
        'D' => "D",
        'E' => "E",
        _ => "F",
    }
}

/// The EIP-55 mixed-case form of `address`, `0x`-prefixed. The input may
/// come with or without a `0x` prefix and in any letter case; the result
/// does not depend on the case it came in.
pub fn get_checksum_address(address: &str) -> (r: String)
    requires
        is_address_string(address@),
    ensures
        r@ == checksum_spec(address@),
{
    let len: usize = address.unicode_len();
    let start: usize = if len >= 2 && address.get_char(0) == '0' && address.get_char(1) == 'x' {
        2
    } else {
        0
    };
    let ghost stripped: Seq<char> = strip_hex_prefix(address@);
    proof {
        assert(stripped =~= address@.skip(start as int));
    }
    let ghost low: Seq<char> = lowercase_seq(stripped);
    let mut lows: Vec<char> = Vec::new();
    let mut low_bytes: Vec<u8> = Vec::new();
    let mut i: usize = 0;
    while i < 40
        invariant
            address@.len() == len,
            start + 40 == len,
            stripped == strip_hex_prefix(address@),
            stripped =~= address@.skip(start as int),
            low == lowercase_seq(stripped),
            is_address_string(address@),
            i <= 40,
            lows@ =~= low.take(i as int),
            low_bytes@ =~= ascii_bytes_of(low).take(i as int),
        decreases 40 - i,
    {
        let c: char = address.get_char(start + i);
        proof {
            assert(stripped[i as int] == c);
        }
        let lc: char = to_lower_hex(c);
        lows.push(lc);
        low_bytes.push(lc as u8);
        proof {
            assert(low[i as int] == lc);
            assert(ascii_bytes_of(low)[i as int] == ascii_byte(lc));
            assert(lows@ =~= low.take(i + 1 as int));
            assert(low_bytes@ =~= ascii_bytes_of(low).take(i + 1 as int));
        }
        i = i + 1;
    }
    proof {
        assert(low.take(40) =~= low);
        assert(ascii_bytes_of(low).take(40) =~= ascii_bytes_of(low));
        assert(low_bytes@ =~= ascii_bytes_of(low));
    }
    let digest: Vec<u8> = keccak256(&low_bytes);
    let ghost h: Seq<u8> = keccak256_of(ascii_bytes_of(low));
    let ghost mixed: Seq<char> = Seq::new(
        low.len(),
        |j: int| if digest_nibble(h, j) >= 8 {
            upper_hex(low[j])
        } else {
            low[j]
        },
    );
    let mut r: String = String::from_str("0x");
    proof {
        reveal_strlit("0x");
        assert(r@ =~= seq!['0', 'x']);
    }
    let mut j: usize = 0;
    while j < 40
        invariant
            j <= 40,
            lows@.len() == 40,
            low.len() == 40,
            digest@.len() == 32,
            digest@ == h,
            lows@ == low,
            mixed == Seq::new(
                low.len(),
                |k: int| if digest_nibble(h, k) >= 8 {
                    upper_hex(low[k])
                } else {
                    low[k]
                },
            ),
            forall|k: int| 0 <= k < 40 ==> is_hex_digit(#[trigger] low[k]),
            r@ =~= seq!['0', 'x'] + mixed.take(j as int),
        decreases 40 - j,
    {
        let b: u8 = digest[j / 2];
        let nib: u8 = if j % 2 == 0 {
            b >> 4
        } else {
            b & 0x0f
        };
        let c: char = lows[j];
        let out: char = if nib >= 8 {
            to_upper_hex(c)
        } else {
            c
        };
        proof {
            assert(digest_nibble(h, j as int) == nib);
            assert(mixed[j as int] == out);
            assert(is_hex_digit(low[j as int]));
            assert(is_hex_digit(out)) by {
                assert(out == upper_hex(c) || out == c);
            }
        }
        r.append(hex_digit_str(out));
        proof {
            assert(r@ =~= seq!['0', 'x'] + mixed.take(j + 1 as int));
        }
        j = j + 1;
    }
    proof {
        assert(mixed.take(40) =~= mixed);
        assert(r@ =~= checksum_spec(address@));
    }
    r
}

/// Whether `s` spells a well-formed address: an optional `0x` prefix and
/// exactly forty hex digits, either case.
pub fn is_valid_address(s: &str) -> (r: bool)
    ensures
        r <==> is_address_string(s@),
{
    let len: usize = s.unicode_len();
    let start: usize = if len >= 2 && s.get_char(0) == '0' && s.get_char(1) == 'x' {
        2
    } else {
        0
    };
    let ghost stripped: Seq<char> = strip_hex_prefix(s@);
    proof {
        assert(stripped =~= s@.skip(start as int));
    }
    if len - start != 40 {
        return false;
    }
    let mut i: usize = 0;
    while i < 40
        invariant
            s@.len() == len,
            start + 40 == len,
            stripped == strip_hex_prefix(s@),
            stripped =~= s@.skip(start as int),
            i <= 40,
            forall|j: int| 0 <= j < i ==> crate::hex_data::is_hex_digit(#[trigger] stripped[j]),
        decreases 40 - i,
    {
        let u: u32 = s.get_char(start + i) as u32;
        proof {
            assert(stripped[i as int] == s@[start + i]);
        }
        if !((48 <= u && u <= 57) || (97 <= u && u <= 102) || (65 <= u && u <= 70)) {
            proof {
                assert(!crate::hex_data::is_hex_digit(stripped[i as int]));
            }
            return false;
        }
        i = i + 1;
    }
    true
}

/// A hex digit that carries no case, or is already lowercase.
pub open spec fn is_lower_hex_digit(c: char) -> bool {
    is_hex_digit(c) && !(65 <= c as u32 && c as u32 <= 70)
}

/// Checksumming is idempotent: checksumming a checksummed address changes
/// nothing, whatever the digest values are.
pub proof fn lemma_checksum_idempotent(s: Seq<char>)
    requires
        is_address_string(s),
    ensures
        is_address_string(checksum_spec(s)),
        checksum_spec(checksum_spec(s)) == checksum_spec(s),
{
    let stripped = strip_hex_prefix(s);
    let low = lowercase_seq(stripped);
    let h = keccak256_of(ascii_bytes_of(low));
    let mixed = Seq::new(
        low.len(),
        |i: int| if digest_nibble(h, i) >= 8 {
            upper_hex(low[i])
        } else {
            low[i]
        },
    );
    let out = checksum_spec(s);
    assert(out == seq!['0', 'x'] + mixed);
    assert(out.len() == 42);
    assert(out[0] == '0' && out[1] == 'x');
    let stripped2 = strip_hex_prefix(out);
    assert(stripped2 =~= mixed);
    assert forall|i: int| 0 <= i < 40 implies is_hex_digit(#[trigger] stripped2[i]) by {
        assert(is_hex_digit(stripped[i]));
        assert(is_lower_hex_digit(low[i]));
        assert(mixed[i] == upper_hex(low[i]) || mixed[i] == low[i]);
    }
    assert(is_address_string(out));
    let low2 = lowercase_seq(stripped2);
    assert forall|i: int| 0 <= i < 40 implies low2[i] == low[i] by {
        assert(is_lower_hex_digit(low[i]));
        assert(stripped2[i] == mixed[i]);
        assert(lower_hex(upper_hex(low[i])) == low[i]);
        assert(lower_hex(low[i]) == low[i]);
    }
    assert(low2 =~= low);
    assert(ascii_bytes_of(low2) == ascii_bytes_of(low));
    let mixed2 = Seq::new(
        low2.len(),
        |i: int| if digest_nibble(h, i) >= 8 {
            upper_hex(low2[i])
        } else {
            low2[i]
        },
    );
    assert(mixed2 =~= mixed);
    assert(checksum_spec(out) =~= checksum_spec(s));
}

} // verus!
