//! Keccak-based helpers over the wrapper's hex and packing codecs:
//! digests of hex data, canonical and packed pre-images, and the
//! deterministic contract address of EIP-1014.

use vstd::prelude::*;
use vstd::utf8::encode_utf8;
use crate::address::{keccak256, keccak256_of};
use crate::errors::PackError;
use crate::hex_data::{
    bytes_of_hex,
    get_bytes,
    hex_chars_of,
    hexlify,
    is_hex_string,
    strip_hex_prefix,
    to_utf8_bytes,
};
use crate::numeric::{is_int_literal, literal_value, parse_big_int};
use crate::pack::{nat_to_be_bytes, pack_int_spec};
use crate::pad::zero_seq;

verus! {

/// The canonical ABI encoding of one dynamic byte string: the offset
/// word, the length word — the length taken through a 32-bit cast, as
/// the codec takes it — and the data filled to whole words.
pub open spec fn abi_encoded_bytes(b: Seq<u8>) -> Seq<u8> {
    nat_to_be_bytes(32, 32) + nat_to_be_bytes((b.len() as u32) as nat, 32) + b + zero_seq(
        (((32 - (b.len() % 32) as int) % 32)) as nat,
    )
}

/// The `width`-byte big-endian spelling of `n`.
fn be_word(n: usize, width: usize) -> (r: Vec<u8>)
    ensures
        r@ == nat_to_be_bytes(n as nat, width as nat),
    decreases width,
{
    if width == 0 {
        Vec::new()
    } else {
        let mut r: Vec<u8> = be_word(n / 256, width - 1);
        r.push((n % 256) as u8);
        r
    }
}

/// The Keccak-256 digest of a hex data string, as a `0x`-prefixed hex
/// string. Fails with `InvalidHex` when the input is not hex.
pub fn keccak256_bytes(bytes: &str) -> (r: Result<String, PackError>)
    ensures
        r is Ok <==> is_hex_string(strip_hex_prefix(bytes@)),
        r matches Ok(v) ==> v@ == seq!['0', 'x'] + hex_chars_of(
            keccak256_of(bytes_of_hex(strip_hex_prefix(bytes@))),
        ),
        r matches Err(e) ==> e == PackError::InvalidHex,
{
    let decoded: Vec<u8> = match get_bytes(bytes) {
        Ok(b) => b,
        Err(e) => {
            return Err(e);
        },
    };
    let digest: Vec<u8> = keccak256(&decoded);
    let mut out: String = String::from_str("0x");
    proof {
        reveal_strlit("0x");
        assert(out@ =~= seq!['0', 'x']);
    }
    let encoded: String = hexlify(digest.as_slice());
    out.append(encoded.as_str());
    Ok(out)
}

/// The Keccak-256 digest of a hex data string taken through tight
/// packing, as a `0x`-prefixed hex string. Tightly packing one dynamic
/// byte string leaves it as it is, so the digest is the digest of the
/// bytes themselves.
pub fn keccak256_bytes_encode_packed(bytes: &str) -> (r: Result<String, PackError>)
    ensures
        r is Ok <==> is_hex_string(strip_hex_prefix(bytes@)),
        r matches Ok(v) ==> v@ == seq!['0', 'x'] + hex_chars_of(
            keccak256_of(bytes_of_hex(strip_hex_prefix(bytes@))),
        ),
        r matches Err(e) ==> e == PackError::InvalidHex,
{
    keccak256_bytes(bytes)
}

/// The Keccak-256 digest of a text's UTF-8 bytes under the canonical ABI
/// encoding of one dynamic byte string, as a `0x`-prefixed hex string.
pub fn solidity_keccak256_bytes(text: &str) -> (r: String)
    ensures
        r@ == seq!['0', 'x'] + hex_chars_of(keccak256_of(abi_encoded_bytes(encode_utf8(text@)))),
{
    let data: Vec<u8> = to_utf8_bytes(text);
    let n: usize = data.len();
    let mut preimage: Vec<u8> = be_word(32, 32);
    let n32: u32 = n as u32;
    let mut len_word: Vec<u8> = be_word(n32 as usize, 32);
    proof {
        assert((n32 as usize) as nat == (n as u32) as nat);
    }
    preimage.append(&mut len_word);
    let mut body: Vec<u8> = data;
    preimage.append(&mut body);
    let pad: usize = (32 - n % 32) % 32;
    let mut z: usize = 0;
    let ghost head: Seq<u8> = preimage@;
    while z < pad
        invariant
            z <= pad,
            preimage@ =~= head + zero_seq(z as nat),
        decreases pad - z,
    {
        preimage.push(0u8);
        proof {
            assert(preimage@ =~= head + zero_seq((z + 1) as nat));
        }
        z = z + 1;
    }
    proof {
        assert(encode_utf8(text@).len() == n);
        assert(preimage@ =~= abi_encoded_bytes(encode_utf8(text@)));
    }
    let digest: Vec<u8> = keccak256(&preimage);
    let mut out: String = String::from_str("0x");
    proof {
        reveal_strlit("0x");
        assert(out@ =~= seq!['0', 'x']);
    }
    let encoded: String = hexlify(digest.as_slice());
    out.append(encoded.as_str());
    out
}

/// A text's UTF-8 bytes as a `0x`-prefixed hex data string.
pub fn encode_bytes_value(value: &str) -> (r: String)
    ensures
        r@ == seq!['0', 'x'] + hex_chars_of(encode_utf8(value@)),
{
    let data: Vec<u8> = to_utf8_bytes(value);
    let mut out: String = String::from_str("0x");
    proof {
        reveal_strlit("0x");
        assert(out@ =~= seq!['0', 'x']);
    }
    let encoded: String = hexlify(data.as_slice());
    out.append(encoded.as_str());
    out
}

/// The EIP-1014 pre-image of a deterministic contract address: the
/// marker byte, the deployer, the salt, and the digest of the
/// initialization code.
pub open spec fn create2_preimage(deployer: Seq<u8>, salt: Seq<u8>, init_code: Seq<u8>) -> Seq<
    u8,
> {
    seq![0xffu8] + deployer + salt + keccak256_of(init_code)
}

/// The deterministic contract address a deployer, a salt and
/// initialization code give, as a `0x`-prefixed hex string: the last
/// twenty bytes of the Keccak-256 digest of the EIP-1014 pre-image.
/// Fails with `InvalidHex` for non-hex inputs and `InvalidBytesLength`
/// for a deployer that is not twenty bytes.
pub fn generate_create2_address(address: &str, salt: &str, init_code: &str) -> (r: Result<
    String,
    PackError,
>)
    ensures
        r is Ok <==> (is_hex_string(strip_hex_prefix(address@)) && bytes_of_hex(
            strip_hex_prefix(address@),
        ).len() == 20 && is_hex_string(strip_hex_prefix(salt@)) && is_hex_string(
            strip_hex_prefix(init_code@),
        )),
        r matches Ok(v) ==> v@ == seq!['0', 'x'] + hex_chars_of(
            keccak256_of(
                create2_preimage(
                    bytes_of_hex(strip_hex_prefix(address@)),
                    bytes_of_hex(strip_hex_prefix(salt@)),
                    bytes_of_hex(strip_hex_prefix(init_code@)),
                ),
            ).skip(12),
        ),
{
    let deployer: Vec<u8> = match get_bytes(address) {
        Ok(b) => b,
        Err(e) => {
            return Err(e);
        },
    };
    if deployer.len() != 20 {
        return Err(PackError::InvalidBytesLength);
    }
    let salt_bytes: Vec<u8> = match get_bytes(salt) {
        Ok(b) => b,
        Err(e) => {
            return Err(e);
        },
    };
    let init_bytes: Vec<u8> = match get_bytes(init_code) {
        Ok(b) => b,
        Err(e) => {
            return Err(e);
        },
    };
    let ghost g_deployer: Seq<u8> = deployer@;
    let ghost g_salt: Seq<u8> = salt_bytes@;
    let ghost g_init: Seq<u8> = init_bytes@;
    let init_hash: Vec<u8> = keccak256(&init_bytes);
    let ghost g_hash: Seq<u8> = init_hash@;
    let mut preimage: Vec<u8> = Vec::new();
    preimage.push(0xffu8);
    proof {
        assert(preimage@ =~= seq![0xffu8]);
    }
    let mut deployer_part: Vec<u8> = deployer;
    preimage.append(&mut deployer_part);
    proof {
        assert(preimage@ == seq![0xffu8] + g_deployer);
    }
    let mut salt_part: Vec<u8> = salt_bytes;
    preimage.append(&mut salt_part);
    proof {
        assert(preimage@ == (seq![0xffu8] + g_deployer) + g_salt);
    }
    let mut hash_part: Vec<u8> = init_hash;
    preimage.append(&mut hash_part);
    proof {
        assert(preimage@ == ((seq![0xffu8] + g_deployer) + g_salt) + g_hash);
        assert(g_hash == keccak256_of(bytes_of_hex(strip_hex_prefix(init_code@))));
        assert(preimage@ == create2_preimage(
            bytes_of_hex(strip_hex_prefix(address@)),
            bytes_of_hex(strip_hex_prefix(salt@)),
            bytes_of_hex(strip_hex_prefix(init_code@)),
        ));
    }
    let digest: Vec<u8> = keccak256(&preimage);
    let mut tail: Vec<u8> = Vec::new();
    let mut i: usize = 12;
    while i < 32
        invariant
            12 <= i <= 32,
            digest@.len() == 32,
            tail@ =~= digest@.skip(12).take(i - 12),
        decreases 32 - i,
    {
        tail.push(digest[i]);
        proof {
            assert(tail@ =~= digest@.skip(12).take(i + 1 - 12));
        }
        i = i + 1;
    }
    proof {
        assert(digest@.skip(12).take(20) =~= digest@.skip(12));
    }
    let mut out: String = String::from_str("0x");
    proof {
        reveal_strlit("0x");
        assert(out@ =~= seq!['0', 'x']);
    }
    let encoded: String = hexlify(tail.as_slice());
    out.append(encoded.as_str());
    Ok(out)
}

/// Whether an integer literal denotes exactly one.
fn literal_is_one(op: &str) -> (r: bool)
    ensures
        r <==> (is_int_literal(op@) && literal_value(op@) == 1),
{
    let v: crate::numeric::BigIntValue = match parse_big_int(op) {
        Ok(v) => v,
        Err(_) => {
            return false;
        },
    };
    proof {
        if v.magnitude@.len() == 1 {
            crate::numeric::lemma_be_val_single(v.magnitude@);
        }
        if v.magnitude@.len() > 1 {
            crate::numeric::lemma_be_val_minimal_lower(v.magnitude@);
            assert(vstd::arithmetic::power::pow(256, (v.magnitude@.len() - 1) as nat) >= 256) by {
                vstd::arithmetic::power::lemma_pow1(256);
                vstd::arithmetic::power::lemma_pow_increases(
                    256,
                    1,
                    (v.magnitude@.len() - 1) as nat,
                );
            }
        }
    }
    !v.negative && v.magnitude.len() == 1 && v.magnitude[0] == 1
}

/// The tightly packed meta-transaction pre-image, as a `0x`-prefixed hex
/// string: one operation byte — one exactly when the operation literal
/// denotes one — the recipient's twenty bytes, the wei amount as a
/// 256-bit word, the data's byte count as a 256-bit word, and the data.
/// Fails for a recipient that is not a twenty-byte hex string, an amount
/// outside the unsigned 256-bit range, or data that is not hex.
pub fn encode_meta_transaction(
    operation: &Option<String>,
    to: &str,
    value: &str,
    data: &str,
) -> (r: Result<String, PackError>)
    ensures
        r is Ok <==> (is_hex_string(strip_hex_prefix(to@)) && bytes_of_hex(
            strip_hex_prefix(to@),
        ).len() == 20 && pack_int_spec(256, false, value@) is Ok && is_hex_string(
            strip_hex_prefix(data@),
        )),
        r matches Ok(v) ==> v@ == seq!['0', 'x'] + hex_chars_of(
            (if operation matches Some(op) && is_int_literal(op@) && literal_value(op@) == 1 {
                seq![1u8]
            } else {
                seq![0u8]
            }) + bytes_of_hex(strip_hex_prefix(to@)) + pack_int_spec(256, false, value@)->Ok_0
                + nat_to_be_bytes(bytes_of_hex(strip_hex_prefix(data@)).len(), 32) + bytes_of_hex(
                strip_hex_prefix(data@),
            ),
        ),
{
    let op_byte: u8 = match operation {
        Some(op) => {
            if literal_is_one(op.as_str()) {
                1
            } else {
                0
            }
        },
        None => 0,
    };
    let ghost op_seq: Seq<u8> = if operation matches Some(op) && is_int_literal(op@)
        && literal_value(op@) == 1 {
        seq![1u8]
    } else {
        seq![0u8]
    };
    proof {
        assert(op_seq =~= seq![op_byte]);
    }
    let to_bytes: Vec<u8> = match get_bytes(to) {
        Ok(b) => b,
        Err(e) => {
            return Err(e);
        },
    };
    if to_bytes.len() != 20 {
        return Err(PackError::InvalidBytesLength);
    }
    let value_word: Vec<u8> = match crate::pack::pack(
        &crate::type_parser::TypeDescriptor::UnsignedInt(256),
        value,
        false,
    ) {
        Ok(b) => b,
        Err(e) => {
            proof {
                assert(pack_int_spec(256, false, value@) == Err::<Seq<u8>, PackError>(e));
            }
            return Err(e);
        },
    };
    proof {
        assert(pack_int_spec(256, false, value@) == Ok::<Seq<u8>, PackError>(value_word@));
    }
    let data_bytes: Vec<u8> = match get_bytes(data) {
        Ok(b) => b,
        Err(e) => {
            return Err(e);
        },
    };
    let mut packed: Vec<u8> = Vec::new();
    packed.push(op_byte);
    let mut to_part: Vec<u8> = to_bytes;
    packed.append(&mut to_part);
    let mut value_part: Vec<u8> = value_word;
    packed.append(&mut value_part);
    let mut len_word: Vec<u8> = be_word(data_bytes.len(), 32);
    packed.append(&mut len_word);
    let ghost data_seq: Seq<u8> = data_bytes@;
    let mut data_part: Vec<u8> = data_bytes;
    packed.append(&mut data_part);
    proof {
        assert(packed@ =~= op_seq + bytes_of_hex(strip_hex_prefix(to@)) + pack_int_spec(
            256,
            false,
            value@,
        )->Ok_0 + nat_to_be_bytes(data_seq.len(), 32) + data_seq);
    }
    let mut out: String = String::from_str("0x");
    proof {
        reveal_strlit("0x");
        assert(out@ =~= seq!['0', 'x']);
    }
    let encoded: String = hexlify(packed.as_slice());
    out.append(encoded.as_str());
    Ok(out)
}

} // verus!
