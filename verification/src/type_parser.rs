//! The type-string grammar: parsing tokens such as `uint256`, `bytes16`,
//! `address[3]` or `bool[]` into structured type descriptors.

use vstd::prelude::*;
use crate::errors::PackError;
use crate::numeric::{is_dec_digit, dec_val};

verus! {

/// A parsed Solidity ABI type.
#[derive(Debug)]
pub enum TypeDescriptor {
    /// A 20-byte account address.
    Address,
    /// A boolean.
    Bool,
    /// A dynamic UTF-8 string.
    Utf8String,
    /// A dynamic byte string.
    DynamicBytes,
    /// A fixed byte string of the given width, one to thirty-two.
    FixedBytes(usize),
    /// An unsigned integer of the given bit width.
    UnsignedInt(usize),
    /// A signed integer of the given bit width.
    SignedInt(usize),
    /// An array of the element type, of fixed length or, with `None`,
    /// of the length the supplied value shows at encode time.
    Array(Box<TypeDescriptor>, Option<usize>),
}

/// Structural validity: integer widths are positive multiples of eight up
/// to 256, fixed-bytes widths lie in one to thirty-two.
pub open spec fn valid_type(t: TypeDescriptor) -> bool
    decreases t,
{
    match t {
        TypeDescriptor::FixedBytes(w) => 1 <= w <= 32,
        TypeDescriptor::UnsignedInt(b) => b % 8 == 0 && 8 <= b <= 256,
        TypeDescriptor::SignedInt(b) => b % 8 == 0 && 8 <= b <= 256,
        TypeDescriptor::Array(e, _len) => valid_type(*e),
        _ => true,
    }
}

/// Whether every character of `s` is a decimal digit; an empty `s` counts.
pub open spec fn all_digits(s: Seq<char>) -> bool {
    forall|i: int| 0 <= i < s.len() ==> is_dec_digit(#[trigger] s[i])
}

/// The position of the last `c` in `s`, or minus one.
pub open spec fn find_last(s: Seq<char>, c: char) -> int
    decreases s.len(),
{
    if s.len() == 0 {
        -1
    } else if s.last() == c {
        s.len() - 1
    } else {
        find_last(s.drop_last(), c)
    }
}

pub proof fn lemma_find_last_in_range(s: Seq<char>, c: char)
    ensures
        -1 <= find_last(s, c) < s.len(),
        find_last(s, c) >= 0 ==> s[find_last(s, c)] == c,
    decreases s.len(),
{
    if s.len() > 0 && s.last() != c {
        lemma_find_last_in_range(s.drop_last(), c);
    }
}

/// Whether `s` matches `int` or `uint` followed by digits alone.
pub open spec fn is_number_pattern(s: Seq<char>) -> bool {
    (s.len() >= 3 && s.take(3) == seq!['i', 'n', 't'] && all_digits(s.skip(3))) || (s.len() >= 4
        && s.take(4) == seq!['u', 'i', 'n', 't'] && all_digits(s.skip(4)))
}

/// Whether the matched number pattern is the signed `int` form.
pub open spec fn number_signed(s: Seq<char>) -> bool {
    s.len() >= 3 && s.take(3) == seq!['i', 'n', 't']
}

/// The digits after the `int` or `uint` prefix.
pub open spec fn number_tail(s: Seq<char>) -> Seq<char> {
    if number_signed(s) {
        s.skip(3)
    } else {
        s.skip(4)
    }
}

/// Whether the digit tail of a number type names a legal bit width:
/// no digits mean the 256-bit default; explicit digits must spell a
/// positive multiple of eight up to 256, with no leading zero.
pub open spec fn valid_bits_tail(tail: Seq<char>) -> bool {
    tail.len() == 0 || (tail[0] != '0' && dec_val(tail) % 8 == 0 && dec_val(tail) != 0 && dec_val(
        tail,
    ) <= 256)
}

/// The bit width a number-type tail names.
pub open spec fn bits_of_tail(tail: Seq<char>) -> nat {
    if tail.len() == 0 {
        256
    } else {
        dec_val(tail)
    }
}

/// Whether `s` matches `bytes` followed by digits alone.
pub open spec fn is_bytes_pattern(s: Seq<char>) -> bool {
    s.len() >= 5 && s.take(5) == seq!['b', 'y', 't', 'e', 's'] && all_digits(s.skip(5))
}

/// Whether `s` ends in a bracket pair whose body is digits alone, with a
/// nonempty base type before the last opening bracket.
pub open spec fn is_array_pattern(s: Seq<char>) -> bool {
    s.len() >= 3 && s.last() == ']' && find_last(s.take(s.len() - 1), '[') >= 1 && all_digits(
        s.subrange(find_last(s.take(s.len() - 1), '[') + 1, s.len() - 1),
    )
}

/// The position of the last opening bracket, for an array pattern.
pub open spec fn array_open(s: Seq<char>) -> int {
    find_last(s.take(s.len() - 1), '[')
}

/// The digits between the brackets of an array pattern.
pub open spec fn array_count_digits(s: Seq<char>) -> Seq<char> {
    s.subrange(array_open(s) + 1, s.len() - 1)
}

/// What the type grammar makes of `s`: the first of these that applies —
/// the four exact elementary names; `int`/`uint` with an optional width;
/// `bytes` with a width; a trailing bracket pair over a base type — or
/// nothing.
pub open spec fn parse_type_spec(s: Seq<char>) -> Option<TypeDescriptor>
    decreases s.len(),
{
    if s == seq!['a', 'd', 'd', 'r', 'e', 's', 's'] {
        Some(TypeDescriptor::Address)
    } else if s == seq!['s', 't', 'r', 'i', 'n', 'g'] {
        Some(TypeDescriptor::Utf8String)
    } else if s == seq!['b', 'y', 't', 'e', 's'] {
        Some(TypeDescriptor::DynamicBytes)
    } else if s == seq!['b', 'o', 'o', 'l'] {
        Some(TypeDescriptor::Bool)
    } else if is_number_pattern(s) {
        if valid_bits_tail(number_tail(s)) {
            if number_signed(s) {
                Some(TypeDescriptor::SignedInt(bits_of_tail(number_tail(s)) as usize))
            } else {
                Some(TypeDescriptor::UnsignedInt(bits_of_tail(number_tail(s)) as usize))
            }
        } else {
            None
        }
    } else if is_bytes_pattern(s) {
        if 1 <= dec_val(s.skip(5)) <= 32 {
            Some(TypeDescriptor::FixedBytes(dec_val(s.skip(5)) as usize))
        } else {
            None
        }
    } else if is_array_pattern(s) && 0 <= array_open(s) < s.len() {
        let open = array_open(s);
        let cnt = array_count_digits(s);
        match parse_type_spec(s.take(open)) {
            Some(e) => if cnt.len() == 0 {
                Some(TypeDescriptor::Array(Box::new(e), None))
            } else if dec_val(cnt) <= usize::MAX as nat {
                Some(TypeDescriptor::Array(Box::new(e), Some(dec_val(cnt) as usize)))
            } else {
                None
            },
            None => None,
        }
    } else {
        None
    }
}

/// Whether `s` and the literal `lit` spell the same characters.
pub(crate) fn str_eq_str(s: &str, lit: &str) -> (r: bool)
    ensures
        r <==> s@ == lit@,
{
    let n: usize = s.unicode_len();
    let m: usize = lit.unicode_len();
    if n != m {
        proof {
            assert(s@.len() != lit@.len());
        }
        return false;
    }
    let mut i: usize = 0;
    while i < n
        invariant
            n == s@.len(),
            n == lit@.len(),
            i <= n,
            forall|j: int| 0 <= j < i ==> s@[j] == lit@[j],
        decreases n - i,
    {
        if s.get_char(i) != lit.get_char(i) {
            return false;
        }
        i = i + 1;
    }
    proof {
        assert(s@ =~= lit@);
    }
    true
}

/// Whether every character of `s` from `from` on is a decimal digit.
pub(crate) fn all_digits_from(s: &str, from: usize) -> (r: bool)
    requires
        from <= s@.len(),
    ensures
        r <==> all_digits(s@.skip(from as int)),
{
    let n: usize = s.unicode_len();
    let mut i: usize = from;
    while i < n
        invariant
            n == s@.len(),
            from <= i <= n,
            forall|j: int| from <= j < i ==> is_dec_digit(#[trigger] s@[j]),
        decreases n - i,
    {
        let u: u32 = s.get_char(i) as u32;
        if !(48 <= u && u <= 57) {
            proof {
                assert(s@.skip(from as int)[i - from] == s@[i as int]);
            }
            return false;
        }
        i = i + 1;
    }
    proof {
        assert forall|j: int| 0 <= j < s@.skip(from as int).len() implies is_dec_digit(
            #[trigger] s@.skip(from as int)[j],
        ) by {
            assert(s@.skip(from as int)[j] == s@[j + from]);
        }
    }
    true
}

/// Whether `lit` begins `s` at position zero.
fn starts_with_str(s: &str, lit: &str) -> (r: bool)
    ensures
        r <==> (s@.len() >= lit@.len() && s@.take(lit@.len() as int) == lit@),
{
    let n: usize = s.unicode_len();
    let m: usize = lit.unicode_len();
    if n < m {
        return false;
    }
    let mut i: usize = 0;
    while i < m
        invariant
            n == s@.len(),
            m == lit@.len(),
            m <= n,
            i <= m,
            forall|j: int| 0 <= j < i ==> s@[j] == lit@[j],
        decreases m - i,
    {
        if s.get_char(i) != lit.get_char(i) {
            proof {
                assert(s@.take(m as int)[i as int] != lit@[i as int]);
            }
            return false;
        }
        i = i + 1;
    }
    proof {
        assert(s@.take(m as int) =~= lit@);
    }
    true
}

/// Matches `bytes` followed by digits alone, as the pattern
/// `^bytes([0-9]*)$` would, and hands back the digit string.
pub fn matches_regex_bytes(input: &str) -> (r: Option<String>)
    ensures
        r is Some <==> is_bytes_pattern(input@),
        r matches Some(t) ==> t@ == input@.skip(5),
{
    proof {
        reveal_strlit("bytes");
        assert("bytes"@ =~= seq!['b', 'y', 't', 'e', 's']);
    }
    if !starts_with_str(input, "bytes") {
        return None;
    }
    if !all_digits_from(input, 5) {
        return None;
    }
    let len: usize = input.unicode_len();
    let tail: &str = input.substring_char(5, len);
    Some(String::from_str(tail))
}

/// Matches `int` or `uint` followed by digits alone, as the pattern
/// `^(u?int)([0-9]*)$` would, and hands back the prefix and the digits.
pub fn matches_regex_number(input: &str) -> (r: Option<(String, String)>)
    ensures
        r is Some <==> is_number_pattern(input@),
        r matches Some(p) ==> (number_signed(input@) <==> p.0@ == seq!['i', 'n', 't']),
        r matches Some(p) ==> (!number_signed(input@) ==> p.0@ == seq!['u', 'i', 'n', 't']),
        r matches Some(p) ==> p.1@ == number_tail(input@),
{
    proof {
        reveal_strlit("int");
        reveal_strlit("uint");
        assert("int"@ =~= seq!['i', 'n', 't']);
        assert("uint"@ =~= seq!['u', 'i', 'n', 't']);
    }
    let len: usize = input.unicode_len();
    if starts_with_str(input, "int") {
        if !all_digits_from(input, 3) {
            return None;
        }
        let tail: &str = input.substring_char(3, len);
        return Some((String::from_str("int"), String::from_str(tail)));
    }
    if starts_with_str(input, "uint") {
        proof {
            assert(input@.take(3) != seq!['i', 'n', 't']) by {
                assert(input@.take(4)[0] == 'u');
                assert(input@.take(3)[0] == input@[0]);
            }
        }
        if !all_digits_from(input, 4) {
            return None;
        }
        let tail: &str = input.substring_char(4, len);
        return Some((String::from_str("uint"), String::from_str(tail)));
    }
    None
}

/// Matches a trailing bracket pair with a digit body over a nonempty base,
/// as the anchored greedy pattern `^(.+)\[([0-9]*)\]$` would, and hands
/// back the base type string and the digits.
pub fn matches_regex_array(input: &str) -> (r: Option<(String, String)>)
    ensures
        r is Some <==> is_array_pattern(input@),
        r matches Some(p) ==> p.0@ == input@.take(array_open(input@)) && p.1@ == input@.subrange(
            array_open(input@) + 1,
            input@.len() - 1,
        ),
{
    let len: usize = input.unicode_len();
    if len < 3 {
        proof {
            if input@.len() > 0 {
                lemma_find_last_in_range(input@.take(input@.len() - 1), '[');
            }
        }
        return None;
    }
    if input.get_char(len - 1) != ']' {
        return None;
    }
    let ghost head: Seq<char> = input@.take(input@.len() - 1);
    // scan backwards for the last opening bracket before the final bracket
    let mut j: usize = len - 1;
    let mut open: usize = 0;
    let mut found: bool = false;
    proof {
        assert(head.take((len - 1) as int) =~= head);
    }
    while j > 0 && !found
        invariant
            input@.len() == len,
            len >= 3,
            head == input@.take(input@.len() - 1),
            j <= len - 1,
            !found ==> find_last(head, '[') == find_last(head.take(j as int), '['),
            found ==> open < len - 1 && find_last(head, '[') == open,
        decreases j,
    {
        j = j - 1;
        let c: char = input.get_char(j);
        proof {
            assert(head.take(j + 1 as int).last() == input@[j as int]);
            assert(head.take(j + 1 as int).drop_last() =~= head.take(j as int));
        }
        if c == '[' {
            open = j;
            found = true;
            proof {
                assert(find_last(head.take(j + 1 as int), '[') == j);
            }
        }
    }
    if !found {
        proof {
            assert(j == 0);
            assert(head.take(0) =~= Seq::<char>::empty());
            assert(find_last(head, '[') == -1);
        }
        return None;
    }
    if open < 1 {
        return None;
    }
    proof {
        assert(array_open(input@) == open);
    }
    let mut i: usize = open + 1;
    while i < len - 1
        invariant
            input@.len() == len,
            len >= 3,
            1 <= open,
            open + 1 <= i <= len - 1,
            input@[len - 1] == ']',
            array_open(input@) == open,
            forall|k: int| open + 1 <= k < i ==> is_dec_digit(#[trigger] input@[k]),
        decreases len - 1 - i,
    {
        let u: u32 = input.get_char(i) as u32;
        if !(48 <= u && u <= 57) {
            proof {
                let cnt = input@.subrange(open + 1 as int, input@.len() - 1);
                assert(cnt[i - (open + 1)] == input@[i as int]);
                assert(!all_digits(cnt));
            }
            return None;
        }
        i = i + 1;
    }
    proof {
        let cnt = input@.subrange(open + 1 as int, input@.len() - 1);
        assert forall|k: int| 0 <= k < cnt.len() implies is_dec_digit(#[trigger] cnt[k]) by {
            assert(cnt[k] == input@[k + open + 1]);
        }
        assert(is_array_pattern(input@));
    }
    let base: &str = input.substring_char(0, open);
    let cnt: &str = input.substring_char(open + 1, len - 1);
    proof {
        assert(base@ =~= input@.take(open as int));
        assert(cnt@ =~= input@.subrange(array_open(input@) + 1, input@.len() - 1));
    }
    Some((String::from_str(base), String::from_str(cnt)))
}

/// Parses a digit string into a machine-sized number, or reports that it
/// does not fit.
fn parse_usize_digits(digits: &str) -> (r: Option<usize>)
    requires
        all_digits(digits@),
    ensures
        r is Some <==> dec_val(digits@) <= usize::MAX as nat,
        r matches Some(n) ==> n as nat == dec_val(digits@),
{
    let n: usize = digits.unicode_len();
    let mut acc: usize = 0;
    let mut i: usize = 0;
    while i < n
        invariant
            n == digits@.len(),
            all_digits(digits@),
            i <= n,
            acc as nat == dec_val(digits@.take(i as int)),
        decreases n - i,
    {
        let u: u32 = digits.get_char(i) as u32;
        proof {
            assert(is_dec_digit(digits@[i as int]));
        }
        let d: usize = (u - 48) as usize;
        if acc > (usize::MAX - d) / 10 {
            proof {
                crate::numeric::lemma_dec_val_take_step(digits@, i as int);
                let q = (usize::MAX - d) as int / 10;
                vstd::arithmetic::div_mod::lemma_fundamental_div_mod((usize::MAX - d) as int, 10);
                assert(acc as int >= q + 1);
                assert((q + 1) * 10 > usize::MAX - d + 10 - 10) by (nonlinear_arith)
                    requires
                        q * 10 <= usize::MAX - d < (q + 1) * 10,
                ;
                assert(acc as int * 10 >= (q + 1) * 10) by (nonlinear_arith)
                    requires
                        acc as int >= q + 1,
                ;
                assert(dec_val(digits@.take(i + 1 as int)) > usize::MAX as nat);
                lemma_dec_val_prefix_le(digits@, i + 1 as int);
            }
            return None;
        }
        proof {
            crate::numeric::lemma_dec_val_take_step(digits@, i as int);
            let q = (usize::MAX - d) as int / 10;
            vstd::arithmetic::div_mod::lemma_fundamental_div_mod((usize::MAX - d) as int, 10);
            assert(acc as int * 10 <= q * 10) by (nonlinear_arith)
                requires
                    acc as int <= q,
            ;
        }
        acc = acc * 10 + d;
        i = i + 1;
    }
    proof {
        assert(digits@.take(n as int) =~= digits@);
    }
    Some(acc)
}

/// A longer digit string never denotes less.
pub proof fn lemma_dec_val_prefix_le(s: Seq<char>, i: int)
    requires
        0 <= i <= s.len(),
    ensures
        dec_val(s.take(i)) <= dec_val(s),
    decreases s.len() - i,
{
    if i < s.len() {
        crate::numeric::lemma_dec_val_take_step(s, i);
        assert(dec_val(s.take(i)) * 10 >= dec_val(s.take(i))) by (nonlinear_arith);
        lemma_dec_val_prefix_le(s, i + 1);
    } else {
        assert(s.take(i) =~= s);
    }
}

/// Parses a type string into a descriptor, or fails with `InvalidType`.
pub fn parse_type(s: &str) -> (r: Result<TypeDescriptor, PackError>)
    ensures
        r is Ok <==> parse_type_spec(s@) is Some,
        r matches Ok(t) ==> parse_type_spec(s@) == Some(t) && valid_type(t),
        r matches Err(e) ==> e == PackError::InvalidType,
    decreases s@.len(),
{
    proof {
        reveal_strlit("address");
        reveal_strlit("string");
        reveal_strlit("bytes");
        reveal_strlit("bool");
        assert("address"@ =~= seq!['a', 'd', 'd', 'r', 'e', 's', 's']);
        assert("string"@ =~= seq!['s', 't', 'r', 'i', 'n', 'g']);
        assert("bytes"@ =~= seq!['b', 'y', 't', 'e', 's']);
        assert("bool"@ =~= seq!['b', 'o', 'o', 'l']);
    }
    if str_eq_str(s, "address") {
        return Ok(TypeDescriptor::Address);
    }
    if str_eq_str(s, "string") {
        return Ok(TypeDescriptor::Utf8String);
    }
    if str_eq_str(s, "bytes") {
        return Ok(TypeDescriptor::DynamicBytes);
    }
    if str_eq_str(s, "bool") {
        return Ok(TypeDescriptor::Bool);
    }
    match matches_regex_number(s) {
        Some((prefix, tail)) => {
            proof {
                reveal_strlit("int");
                assert("int"@ =~= seq!['i', 'n', 't']);
            }
            let signed: bool = str_eq_str(prefix.as_str(), "int");
            let bits: usize = if tail.as_str().unicode_len() == 0 {
                256
            } else {
                let t = tail.as_str();
                if t.get_char(0) == '0' {
                    return Err(PackError::InvalidType);
                }
                match parse_usize_digits(t) {
                    Some(b) => {
                        if b == 0 || b % 8 != 0 || b > 256 {
                            return Err(PackError::InvalidType);
                        }
                        b
                    },
                    None => {
                        proof {
                            assert(dec_val(tail@) > 256);
                        }
                        return Err(PackError::InvalidType);
                    },
                }
            };
            proof {
                assert(valid_bits_tail(number_tail(s@)));
                assert(bits as nat == bits_of_tail(number_tail(s@)));
            }
            if signed {
                return Ok(TypeDescriptor::SignedInt(bits));
            }
            return Ok(TypeDescriptor::UnsignedInt(bits));
        },
        None => {},
    }
    match matches_regex_bytes(s) {
        Some(tail) => {
            let t = tail.as_str();
            let width: usize = match parse_usize_digits(t) {
                Some(w) => w,
                None => {
                    proof {
                        assert(dec_val(s@.skip(5)) > 32);
                    }
                    return Err(PackError::InvalidType);
                },
            };
            if width == 0 || width > 32 {
                return Err(PackError::InvalidType);
            }
            return Ok(TypeDescriptor::FixedBytes(width));
        },
        None => {},
    }
    match matches_regex_array(s) {
        Some((base, cnt)) => {
            proof {
                lemma_find_last_in_range(s@.take(s@.len() - 1), '[');
                assert(base@.len() < s@.len());
            }
            let elem: TypeDescriptor = match parse_type(base.as_str()) {
                Ok(e) => e,
                Err(e) => {
                    return Err(e);
                },
            };
            if cnt.as_str().unicode_len() == 0 {
                return Ok(TypeDescriptor::Array(Box::new(elem), None));
            }
            match parse_usize_digits(cnt.as_str()) {
                Some(c) => {
                    return Ok(TypeDescriptor::Array(Box::new(elem), Some(c)));
                },
                None => {
                    return Err(PackError::InvalidType);
                },
            }
        },
        None => {},
    }
    Err(PackError::InvalidType)
}

} // verus!
