//! Canonical ABI parameter encoding, delegated to the standard ABI codec:
//! type strings are parsed and values tokenized by `ethers-core`'s ABI
//! machinery, and the head-tail encoding is the codec's own.

use vstd::prelude::*;
use vstd::utf8::is_ascii_chars;
use ethers_core::abi::HumanReadableParser;
use ethers_core::abi::token::{LenientTokenizer, Tokenizer};
use crate::errors::PackError;
use crate::numeric::{dec_val, is_dec_digit};

verus! {

#[verifier::external_type_specification]
#[verifier::external_body]
pub struct ExParamType(ethers_core::abi::ParamType);

#[verifier::external_type_specification]
#[verifier::external_body]
pub struct ExToken(ethers_core::abi::Token);

/// Whether `s[i..j]` is a maximal run of decimal digits: digits
/// throughout, with no digit on either side.
pub open spec fn digit_run_at(s: Seq<char>, i: int, j: int) -> bool {
    &&& 0 <= i < j <= s.len()
    &&& (forall|k: int| i <= k < j ==> is_dec_digit(#[trigger] s[k]))
    &&& (i == 0 || !is_dec_digit(s[i - 1]))
    &&& (j == s.len() || !is_dec_digit(s[j]))
}

/// Whether every maximal digit run in `s` denotes a machine-sized
/// number. The type lexer reads each such run as one number token and
/// insists it fits.
pub open spec fn number_runs_fit(s: Seq<char>) -> bool {
    forall|i: int, j: int|
        #[trigger] digit_run_at(s, i, j) ==> dec_val(s.subrange(i, j)) <= usize::MAX as nat
}

/// Relies on `HumanReadableParser::parse_type`: the parsed ABI type for a
/// type string, or nothing where the grammar refuses it. The lexer reads
/// each maximal digit run as one number and parses it into a machine
/// word without a fallback, so the requires keeps oversized runs out.
#[verifier::external_body]
fn parse_abi_type(s: &str) -> Option<ethers_core::abi::ParamType>
    requires
        number_runs_fit(s@),
{
    HumanReadableParser::parse_type(s).ok()
}

/// Relies on `LenientTokenizer::tokenize`: the value literal read as a
/// token of the given ABI type, or nothing where it does not parse. The
/// array and tuple tokenizers slice the value at character positions
/// taken as byte positions, so the requires keeps the value ASCII.
#[verifier::external_body]
fn tokenize_value(kind: &ethers_core::abi::ParamType, value: &str) -> Option<
    ethers_core::abi::Token,
>
    requires
        is_ascii_chars(value@),
{
    LenientTokenizer::tokenize(kind, value).ok()
}

/// Relies on `ethers_core::abi::encode`: the canonical head-tail ABI
/// encoding of the tokens.
#[verifier::external_body]
fn abi_encode(tokens: &Vec<ethers_core::abi::Token>) -> Vec<u8> {
    ethers_core::abi::encode(tokens.as_slice())
}

/// Whether the character at `j` is a decimal digit.
fn is_digit_at(s: &str, j: usize) -> (r: bool)
    requires
        j < s@.len(),
    ensures
        r <==> is_dec_digit(s@[j as int]),
{
    let u: u32 = s.get_char(j) as u32;
    48 <= u && u <= 57
}

/// Whether every maximal digit run in `s` denotes a machine-sized
/// number.
pub fn check_number_runs(s: &str) -> (r: bool)
    ensures
        r <==> number_runs_fit(s@),
{
    let len: usize = s.unicode_len();
    let mut pos: usize = 0;
    while pos < len
        invariant
            len == s@.len(),
            pos <= len,
            pos == 0 || !is_dec_digit(s@[pos - 1]) || pos == len || !is_dec_digit(
                s@[pos as int],
            ),
            forall|i2: int, j2: int|
                #[trigger] digit_run_at(s@, i2, j2) && i2 < pos ==> dec_val(s@.subrange(i2, j2))
                    <= usize::MAX as nat,
        decreases len - pos,
    {
        let u: u32 = s.get_char(pos) as u32;
        if !(48 <= u && u <= 57) {
            proof {
                assert(!is_dec_digit(s@[pos as int]));
                assert forall|i2: int, j2: int|
                    #[trigger] digit_run_at(s@, i2, j2) && i2 < pos + 1 implies dec_val(
                    s@.subrange(i2, j2),
                ) <= usize::MAX as nat by {
                    if i2 == pos {
                        assert(is_dec_digit(s@[i2]));
                    }
                }
            }
            pos = pos + 1;
            continue ;
        }
        // a maximal digit run starts here; find its end and its value
        let mut j: usize = pos;
        let mut acc: usize = 0;
        let mut fits: bool = true;
        while j < len && is_digit_at(s, j)
            invariant
                len == s@.len(),
                pos <= j <= len,
                pos < len,
                forall|k: int| pos <= k < j ==> is_dec_digit(#[trigger] s@[k]),
                fits ==> acc as nat == dec_val(s@.subrange(pos as int, j as int)),
                !fits ==> dec_val(s@.subrange(pos as int, j as int)) > usize::MAX as nat,
            decreases len - j,
        {
            let d: u32 = s.get_char(j) as u32 - 48;
            proof {
                assert(is_dec_digit(s@[j as int]));
            }
            let ghost run0: Seq<char> = s@.subrange(pos as int, j as int);
            let ghost run1: Seq<char> = s@.subrange(pos as int, j + 1 as int);
            proof {
                assert(run1.drop_last() =~= run0);
                assert(run1.last() == s@[j as int]);
                assert(dec_val(run1) == dec_val(run0) * 10 + crate::numeric::dec_digit_value(
                    s@[j as int],
                ) as nat);
            }
            if fits {
                let du: usize = d as usize;
                if acc > (usize::MAX - du) / 10 {
                    proof {
                        let q = (usize::MAX - du) as int / 10;
                        vstd::arithmetic::div_mod::lemma_fundamental_div_mod(
                            (usize::MAX - du) as int,
                            10,
                        );
                        assert(acc as int >= q + 1);
                        assert((q + 1) * 10 > usize::MAX - du + 10 - 10) by (nonlinear_arith)
                            requires
                                q * 10 <= usize::MAX - du < (q + 1) * 10,
                        ;
                        assert(acc as int * 10 >= (q + 1) * 10) by (nonlinear_arith)
                            requires
                                acc as int >= q + 1,
                        ;
                        assert(dec_val(run1) > usize::MAX as nat);
                    }
                    fits = false;
                } else {
                    proof {
                        let q = (usize::MAX - du) as int / 10;
                        vstd::arithmetic::div_mod::lemma_fundamental_div_mod(
                            (usize::MAX - du) as int,
                            10,
                        );
                        assert(acc as int * 10 <= q * 10) by (nonlinear_arith)
                            requires
                                acc as int <= q,
                        ;
                    }
                    acc = acc * 10 + du;
                }
            } else {
                proof {
                    assert(dec_val(run0) * 10 >= dec_val(run0));
                }
            }
            j = j + 1;
        }
        proof {
            assert(digit_run_at(s@, pos as int, j as int));
        }
        if !fits {
            proof {
                assert(dec_val(s@.subrange(pos as int, j as int)) > usize::MAX as nat);
                assert(!number_runs_fit(s@));
            }
            return false;
        }
        proof {
            // the run just read is the only maximal run between pos and j
            assert forall|i2: int, j2: int|
                #[trigger] digit_run_at(s@, i2, j2) && i2 < j implies dec_val(s@.subrange(i2, j2))
                <= usize::MAX as nat by {
                if i2 >= pos {
                    if i2 > pos {
                        assert(is_dec_digit(s@[i2 - 1]));
                    }
                    assert(i2 == pos);
                    if j2 < j {
                        assert(is_dec_digit(s@[j2]));
                    }
                    if j2 > j {
                        assert(is_dec_digit(s@[j as int]));
                    }
                    assert(j2 == j);
                }
            }
        }
        pos = j;
    }
    proof {
        assert forall|i2: int, j2: int| #[trigger] digit_run_at(s@, i2, j2) implies dec_val(
            s@.subrange(i2, j2),
        ) <= usize::MAX as nat by {
            assert(i2 < j2 <= s@.len());
        }
    }
    true
}

/// Encodes parallel type and value lists in the canonical ABI encoding.
/// Pairs are taken up to the shorter list, each type parsed and each
/// value tokenized by the ABI codec; a type or value the codec refuses
/// fails with `InvalidType`. Values are taken in ASCII, as the codec's
/// tokenizer reads them byte-wise, and a type string carrying a number
/// too large for the machine is refused rather than handed to the codec;
/// both refusals fail with `InvalidType`.
pub fn encode_params(types: &Vec<String>, values: &Vec<String>) -> (r: Result<Vec<u8>, PackError>)
    ensures
        r matches Err(e) ==> e == PackError::InvalidType,
{
    let n: usize = if types.len() < values.len() {
        types.len()
    } else {
        values.len()
    };
    let mut tokens: Vec<ethers_core::abi::Token> = Vec::new();
    let mut i: usize = 0;
    while i < n
        invariant
            n <= types@.len(),
            n <= values@.len(),
            i <= n,
        decreases n - i,
    {
        if !check_number_runs(types[i].as_str()) {
            return Err(PackError::InvalidType);
        }
        let kind: ethers_core::abi::ParamType = match parse_abi_type(types[i].as_str()) {
            Some(k) => k,
            None => {
                return Err(PackError::InvalidType);
            },
        };
        if !values[i].as_str().is_ascii() {
            return Err(PackError::InvalidType);
        }
        let token: ethers_core::abi::Token = match tokenize_value(&kind, values[i].as_str()) {
            Some(t) => t,
            None => {
                return Err(PackError::InvalidType);
            },
        };
        tokens.push(token);
        i = i + 1;
    }
    Ok(abi_encode(&tokens))
}

} // verus!
