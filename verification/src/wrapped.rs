//! The module's callable surface: the pure operations in full, and for
//! the operations whose answer only the provider host can give, the
//! argument validation and result marshalling around that call.

use vstd::prelude::*;
use crate::abi_codec;
use crate::address::{is_address_string, is_valid_address};
use crate::amount;
use crate::amount::{dec_digits_of, eth_of_wei, is_eth_literal, wei_of_eth};
use crate::hex_data::hexlify;
use crate::msgpack::{decode_error_text, msgpack_bool_bytes, msgpack_str_bytes};
use crate::numeric::{dec_val, is_dec_digit, is_dec_digits};
use crate::serialization::{
    deserialize_await_transaction_args,
    deserialize_call_contract_method_and_wait_args,
    deserialize_call_contract_method_args,
    deserialize_call_contract_static_args,
    deserialize_call_contract_view_args,
    deserialize_deploy_contract_args,
    deserialize_estimate_contract_call_gas_args,
    deserialize_check_address_args,
    deserialize_estimate_eip1559_fees_args,
    deserialize_estimate_transaction_gas_args,
    deserialize_get_balance_args,
    deserialize_get_gas_price_args,
    deserialize_get_signer_balance_args,
    deserialize_get_signer_transaction_count_args,
    deserialize_encode_params_args,
    deserialize_get_chain_id_args,
    deserialize_get_signer_address_args,
    deserialize_send_rpc_args,
    deserialize_send_transaction_and_wait_args,
    deserialize_send_transaction_args,
    deserialize_sign_message_args,
    deserialize_to_eth_args,
    deserialize_to_wei_args,
    serialize_await_transaction_result,
    serialize_call_contract_method_and_wait_result,
    serialize_call_contract_method_result,
    serialize_call_contract_static_result,
    serialize_call_contract_view_result,
    serialize_check_address_result,
    serialize_deploy_contract_result,
    serialize_estimate_contract_call_gas_result,
    serialize_estimate_eip1559_fees_result,
    serialize_estimate_transaction_gas_result,
    serialize_get_balance_result,
    serialize_get_gas_price_result,
    serialize_get_signer_balance_result,
    serialize_get_signer_transaction_count_result,
    serialize_encode_params_result,
    serialize_get_chain_id_result,
    serialize_get_signer_address_result,
    serialize_send_rpc_result,
    serialize_send_transaction_and_wait_result,
    serialize_send_transaction_result,
    serialize_sign_message_result,
    serialize_to_eth_result,
    serialize_to_wei_result,
};
use crate::wrap_types::{ArgsCheckAddress, ArgsToEth, ArgsToWei};

verus! {

/// Whether `s` is an ether literal: digits with at most one point, one
/// digit at least.
pub fn check_eth_literal(s: &str) -> (r: bool)
    ensures
        r <==> is_eth_literal(s@),
{
    let len: usize = s.unicode_len();
    let mut i: usize = 0;
    let mut digit_seen: bool = false;
    let mut dot_seen: bool = false;
    let ghost mut dot_at: Option<int> = None;
    while i < len
        invariant
            len == s@.len(),
            i <= len,
            dot_seen <==> dot_at is Some,
            forall|j: int| 0 <= j < i ==> (is_dec_digit(#[trigger] s@[j]) || s@[j] == '.'),
            digit_seen <==> exists|j: int| 0 <= j < i && is_dec_digit(#[trigger] s@[j]),
            dot_at matches Some(d) ==> 0 <= d < i && s@[d] == '.' && forall|k: int|
                0 <= k < i && k != d ==> s@[k] != '.',
            dot_at is None ==> forall|k: int| 0 <= k < i ==> s@[k] != '.',
        decreases len - i,
    {
        let c: char = s.get_char(i);
        let u: u32 = c as u32;
        if 48 <= u && u <= 57 {
            digit_seen = true;
        } else if c == '.' {
            if dot_seen {
                return false;
            }
            dot_seen = true;
            proof {
                dot_at = Some(i as int);
            }
        } else {
            proof {
                assert(!(is_dec_digit(s@[i as int]) || s@[i as int] == '.'));
            }
            return false;
        }
        i = i + 1;
    }
    if !digit_seen {
        return false;
    }
    proof {
        match dot_at {
            Some(d) => {
                assert(forall|p: int, q: int|
                    0 <= p < q < s@.len() && #[trigger] s@[p] == '.' ==> #[trigger] s@[q]
                        != '.') by {
                    assert(forall|k: int| 0 <= k < s@.len() && k != d ==> s@[k] != '.');
                }
            },
            None => {},
        }
    }
    true
}

/// Whether the address literal is well-formed: an optional `0x` prefix
/// and exactly forty hex digits. This is the whole check; no network is
/// consulted.
pub fn check_address(args: ArgsCheckAddress) -> (r: Result<bool, String>)
    ensures
        r matches Ok(b) && b == is_address_string(args.address@),
{
    Ok(is_valid_address(args.address.as_str()))
}

/// Converts an ether literal to its wei value in canonical decimal.
/// A literal that is not digits with at most one point fails.
pub fn to_wei(args: ArgsToWei) -> (r: Result<String, String>)
    ensures
        r is Ok <==> is_eth_literal(args.eth@),
        r matches Ok(v) ==> v@ == dec_digits_of(wei_of_eth(args.eth@)),
{
    if !check_eth_literal(args.eth.as_str()) {
        proof {
            reveal_strlit("invalid ether amount: ");
        }
        let mut msg: String = String::from_str("invalid ether amount: ");
        msg.append(args.eth.as_str());
        return Err(msg);
    }
    Ok(amount::to_wei(args.eth))
}

/// Converts a wei amount in decimal to its ether spelling. An amount
/// that is not plain digits fails.
pub fn to_eth(args: ArgsToEth) -> (r: Result<String, String>)
    ensures
        r is Ok <==> is_dec_digits(args.wei@),
        r matches Ok(v) ==> v@ == eth_of_wei(dec_val(args.wei@)),
{
    let len: usize = args.wei.as_str().unicode_len();
    if len == 0 || !crate::type_parser::all_digits_from(args.wei.as_str(), 0) {
        proof {
            reveal_strlit("Invalid Wei number: ");
            if args.wei@.len() > 0 {
                assert(args.wei@.skip(0) =~= args.wei@);
            }
        }
        let mut msg: String = String::from_str("Invalid Wei number: ");
        msg.append(args.wei.as_str());
        return Err(msg);
    }
    proof {
        assert(args.wei@.skip(0) =~= args.wei@);
    }
    Ok(amount::to_eth(args.wei))
}

/// Handles an ether-to-wei call: the arguments decoded, the conversion
/// done, the result encoded. A message the decoder refuses, or a literal
/// the conversion refuses, fails with its text.
pub fn to_wei_wrapped(args: &[u8], _env_size: u32) -> (r: Result<Vec<u8>, String>)
    ensures
        r matches Ok(b) ==> exists|v: Seq<char>| b@ == msgpack_str_bytes(v),
{
    let parsed: ArgsToWei = match deserialize_to_wei_args(args) {
        Ok(a) => a,
        Err(e) => {
            return Err(decode_error_text(&e));
        },
    };
    let result: String = match to_wei(parsed) {
        Ok(v) => v,
        Err(e) => {
            return Err(e);
        },
    };
    match serialize_to_wei_result(&result) {
        Ok(b) => {
            proof {
                assert(b@ == msgpack_str_bytes(result@));
            }
            Ok(b)
        },
        Err(_) => {
            proof {
                assert(false);
            }
            Err(String::new())
        },
    }
}

/// Handles a wei-to-ether call: the arguments decoded, the conversion
/// done, the result encoded.
pub fn to_eth_wrapped(args: &[u8], _env_size: u32) -> (r: Result<Vec<u8>, String>)
    ensures
        r matches Ok(b) ==> exists|v: Seq<char>| b@ == msgpack_str_bytes(v),
{
    let parsed: ArgsToEth = match deserialize_to_eth_args(args) {
        Ok(a) => a,
        Err(e) => {
            return Err(decode_error_text(&e));
        },
    };
    let result: String = match to_eth(parsed) {
        Ok(v) => v,
        Err(e) => {
            return Err(e);
        },
    };
    match serialize_to_eth_result(&result) {
        Ok(b) => {
            proof {
                assert(b@ == msgpack_str_bytes(result@));
            }
            Ok(b)
        },
        Err(_) => {
            proof {
                assert(false);
            }
            Err(String::new())
        },
    }
}

/// Handles an address check call: the arguments decoded, the address
/// format judged, the answer encoded.
pub fn check_address_wrapped(args: &[u8], _env_size: u32) -> (r: Result<Vec<u8>, String>)
    ensures
        r matches Ok(b) ==> b@ == msgpack_bool_bytes(true) || b@ == msgpack_bool_bytes(false),
{
    let parsed: ArgsCheckAddress = match deserialize_check_address_args(args) {
        Ok(a) => a,
        Err(e) => {
            return Err(decode_error_text(&e));
        },
    };
    let result: bool = match check_address(parsed) {
        Ok(v) => v,
        Err(e) => {
            return Err(e);
        },
    };
    match serialize_check_address_result(&result) {
        Ok(b) => Ok(b),
        Err(_) => {
            proof {
                assert(false);
            }
            Err(String::new())
        },
    }
}

/// Handles a parameter encoding call: the arguments decoded, the pairs
/// encoded by the ABI codec, the `0x`-prefixed hex spelling encoded back.
pub fn encode_params_wrapped(args: &[u8], _env_size: u32) -> (r: Result<Vec<u8>, String>)
    ensures
        r matches Ok(b) ==> exists|v: Seq<char>| b@ == msgpack_str_bytes(v),
{
    let parsed = match deserialize_encode_params_args(args) {
        Ok(a) => a,
        Err(e) => {
            return Err(decode_error_text(&e));
        },
    };
    let bytes: Vec<u8> = match abi_codec::encode_params(&parsed.types, &parsed.values) {
        Ok(b) => b,
        Err(e) => {
            return Err(e.message());
        },
    };
    proof {
        reveal_strlit("0x");
    }
    let mut hex: String = String::from_str("0x");
    let encoded: String = hexlify(bytes.as_slice());
    hex.append(encoded.as_str());
    match serialize_encode_params_result(&hex) {
        Ok(b) => {
            proof {
                assert(b@ == msgpack_str_bytes(hex@));
            }
            Ok(b)
        },
        Err(_) => {
            proof {
                assert(false);
            }
            Err(String::new())
        },
    }
}

/// Handles a chain id call around the provider's answer: the arguments
/// are decoded and checked, and the chain id the provider handed back is
/// encoded as the result. The provider call itself is outside work and
/// stands outside the library.
pub fn get_chain_id_wrapped(args: &[u8], chain_id: &String) -> (r: Result<Vec<u8>, String>)
    ensures
        r matches Ok(b) ==> b@ == msgpack_str_bytes(chain_id@),
{
    match deserialize_get_chain_id_args(args) {
        Ok(_parsed) => {},
        Err(e) => {
            return Err(decode_error_text(&e));
        },
    }
    match serialize_get_chain_id_result(chain_id) {
        Ok(b) => Ok(b),
        Err(_) => {
            proof {
                assert(false);
            }
            Err(String::new())
        },
    }
}

/// Handles a signer address call around the provider's answer, as
/// `get_chain_id_wrapped` does for its call.
pub fn get_signer_address_wrapped(args: &[u8], address: &String) -> (r: Result<Vec<u8>, String>)
    ensures
        r matches Ok(b) ==> b@ == msgpack_str_bytes(address@),
{
    match deserialize_get_signer_address_args(args) {
        Ok(_parsed) => {},
        Err(e) => {
            return Err(decode_error_text(&e));
        },
    }
    match serialize_get_signer_address_result(address) {
        Ok(b) => Ok(b),
        Err(_) => {
            proof {
                assert(false);
            }
            Err(String::new())
        },
    }
}

/// Handles a raw JSON-RPC call around the provider's answer, as
/// `get_chain_id_wrapped` does for its call.
pub fn send_rpc_wrapped(args: &[u8], response: &String) -> (r: Result<Vec<u8>, String>)
    ensures
        r matches Ok(b) ==> b@ == msgpack_str_bytes(response@),
{
    match deserialize_send_rpc_args(args) {
        Ok(_parsed) => {},
        Err(e) => {
            return Err(decode_error_text(&e));
        },
    }
    match serialize_send_rpc_result(response) {
        Ok(b) => Ok(b),
        Err(_) => {
            proof {
                assert(false);
            }
            Err(String::new())
        },
    }
}

/// Handles a message signing call around the signer's answer, as
/// `get_chain_id_wrapped` does for its call.
pub fn sign_message_wrapped(args: &[u8], signature: &String) -> (r: Result<Vec<u8>, String>)
    ensures
        r matches Ok(b) ==> b@ == msgpack_str_bytes(signature@),
{
    match deserialize_sign_message_args(args) {
        Ok(_parsed) => {},
        Err(e) => {
            return Err(decode_error_text(&e));
        },
    }
    match serialize_sign_message_result(signature) {
        Ok(b) => Ok(b),
        Err(_) => {
            proof {
                assert(false);
            }
            Err(String::new())
        },
    }
}

/// Handles a read-only contract call around the provider's answer, as
/// `get_chain_id_wrapped` does for its call: the arguments are decoded
/// and checked, and the formatted call result is encoded back.
pub fn call_contract_view_wrapped(args: &[u8], result: &String) -> (r: Result<Vec<u8>, String>)
    ensures
        r matches Ok(b) ==> b@ == msgpack_str_bytes(result@),
{
    match deserialize_call_contract_view_args(args) {
        Ok(_parsed) => {},
        Err(e) => {
            return Err(decode_error_text(&e));
        },
    }
    match serialize_call_contract_view_result(result) {
        Ok(b) => Ok(b),
        Err(_) => {
            proof {
                assert(false);
            }
            Err(String::new())
        },
    }
}

/// Handles a gas price query around the provider's answer, as
/// `get_chain_id_wrapped` does for its call; the price arrives as a
/// decimal wei amount.
pub fn get_gas_price_wrapped(args: &[u8], price: &String) -> (r: Result<Vec<u8>, String>)
    ensures
        r matches Ok(b) ==> b@ == msgpack_str_bytes(price@),
{
    match deserialize_get_gas_price_args(args) {
        Ok(_parsed) => {},
        Err(e) => {
            return Err(decode_error_text(&e));
        },
    }
    match serialize_get_gas_price_result(price) {
        Ok(b) => Ok(b),
        Err(_) => {
            proof {
                assert(false);
            }
            Err(String::new())
        },
    }
}

/// Handles a signer balance query around the provider's answer, as
/// `get_chain_id_wrapped` does for its call.
pub fn get_signer_balance_wrapped(args: &[u8], balance: &String) -> (r: Result<Vec<u8>, String>)
    ensures
        r matches Ok(b) ==> b@ == msgpack_str_bytes(balance@),
{
    match deserialize_get_signer_balance_args(args) {
        Ok(_parsed) => {},
        Err(e) => {
            return Err(decode_error_text(&e));
        },
    }
    match serialize_get_signer_balance_result(balance) {
        Ok(b) => Ok(b),
        Err(_) => {
            proof {
                assert(false);
            }
            Err(String::new())
        },
    }
}

/// Handles an account balance query around the provider's answer, as
/// `get_chain_id_wrapped` does for its call.
pub fn get_balance_wrapped(args: &[u8], balance: &String) -> (r: Result<Vec<u8>, String>)
    ensures
        r matches Ok(b) ==> b@ == msgpack_str_bytes(balance@),
{
    match deserialize_get_balance_args(args) {
        Ok(_parsed) => {},
        Err(e) => {
            return Err(decode_error_text(&e));
        },
    }
    match serialize_get_balance_result(balance) {
        Ok(b) => Ok(b),
        Err(_) => {
            proof {
                assert(false);
            }
            Err(String::new())
        },
    }
}

/// Handles a signer transaction count query around the provider's
/// answer, as `get_chain_id_wrapped` does for its call.
pub fn get_signer_transaction_count_wrapped(args: &[u8], count: &String) -> (r: Result<
    Vec<u8>,
    String,
>)
    ensures
        r matches Ok(b) ==> b@ == msgpack_str_bytes(count@),
{
    match deserialize_get_signer_transaction_count_args(args) {
        Ok(_parsed) => {},
        Err(e) => {
            return Err(decode_error_text(&e));
        },
    }
    match serialize_get_signer_transaction_count_result(count) {
        Ok(b) => Ok(b),
        Err(_) => {
            proof {
                assert(false);
            }
            Err(String::new())
        },
    }
}

/// Handles a fee estimate query around the provider's answer, as
/// `get_chain_id_wrapped` does for its call; each fee arrives as a
/// decimal wei amount.
pub fn estimate_eip1559_fees_wrapped(
    args: &[u8],
    fees: &crate::wrap_types::Eip1559FeesEstimate,
) -> (r: Result<Vec<u8>, String>)
    ensures
        r matches Ok(b) ==> b@ == crate::serialization::eip1559_fees_estimate_bytes(*fees),
{
    match deserialize_estimate_eip1559_fees_args(args) {
        Ok(_parsed) => {},
        Err(e) => {
            return Err(decode_error_text(&e));
        },
    }
    match serialize_estimate_eip1559_fees_result(fees) {
        Ok(b) => Ok(b),
        Err(_) => {
            proof {
                assert(false);
            }
            Err(String::new())
        },
    }
}

/// Handles a static contract call around the provider's answer, as
/// `get_chain_id_wrapped` does for its call: the formatted result, or
/// the failure text with the flag set, is encoded back.
pub fn call_contract_static_wrapped(
    args: &[u8],
    result: &crate::wrap_types::StaticTxResult,
) -> (r: Result<Vec<u8>, String>)
    ensures
        r matches Ok(b) ==> b@ == crate::serialization::static_tx_result_bytes(*result),
{
    match deserialize_call_contract_static_args(args) {
        Ok(_parsed) => {},
        Err(e) => {
            return Err(decode_error_text(&e));
        },
    }
    match serialize_call_contract_static_result(result) {
        Ok(b) => Ok(b),
        Err(_) => {
            proof {
                assert(false);
            }
            Err(String::new())
        },
    }
}

/// Handles a contract-call gas estimate around the provider's answer, as
/// `get_chain_id_wrapped` does for its call; the estimate arrives as a
/// decimal gas amount.
pub fn estimate_contract_call_gas_wrapped(args: &[u8], gas: &String) -> (r: Result<
    Vec<u8>,
    String,
>)
    ensures
        r matches Ok(b) ==> b@ == msgpack_str_bytes(gas@),
{
    match deserialize_estimate_contract_call_gas_args(args) {
        Ok(_parsed) => {},
        Err(e) => {
            return Err(decode_error_text(&e));
        },
    }
    match serialize_estimate_contract_call_gas_result(gas) {
        Ok(b) => Ok(b),
        Err(_) => {
            proof {
                assert(false);
            }
            Err(String::new())
        },
    }
}

/// Handles a contract deployment around the provider's work, as
/// `get_chain_id_wrapped` does for its call; the new contract's address
/// is encoded back.
pub fn deploy_contract_wrapped(args: &[u8], address: &String) -> (r: Result<Vec<u8>, String>)
    ensures
        r matches Ok(b) ==> b@ == msgpack_str_bytes(address@),
{
    match deserialize_deploy_contract_args(args) {
        Ok(_parsed) => {},
        Err(e) => {
            return Err(decode_error_text(&e));
        },
    }
    match serialize_deploy_contract_result(address) {
        Ok(b) => Ok(b),
        Err(_) => {
            proof {
                assert(false);
            }
            Err(String::new())
        },
    }
}

/// Handles a transaction gas estimate around the provider's answer, as
/// `get_chain_id_wrapped` does for its call; the estimate arrives as a
/// decimal gas amount.
pub fn estimate_transaction_gas_wrapped(args: &[u8], gas: &String) -> (r: Result<Vec<u8>, String>)
    ensures
        r matches Ok(b) ==> b@ == msgpack_str_bytes(gas@),
{
    match deserialize_estimate_transaction_gas_args(args) {
        Ok(_parsed) => {},
        Err(e) => {
            return Err(decode_error_text(&e));
        },
    }
    match serialize_estimate_transaction_gas_result(gas) {
        Ok(b) => Ok(b),
        Err(_) => {
            proof {
                assert(false);
            }
            Err(String::new())
        },
    }
}

/// Handles waiting for a transaction around the provider's work, as
/// `get_chain_id_wrapped` does for its call; the sealed transaction's
/// receipt is encoded back.
pub fn await_transaction_wrapped(
    args: &[u8],
    receipt: &crate::wrap_types::TxReceipt,
) -> (r: Result<Vec<u8>, String>)
    ensures
        r matches Ok(b) ==> b@ == crate::serialization::tx_receipt_bytes(*receipt),
{
    match deserialize_await_transaction_args(args) {
        Ok(_parsed) => {},
        Err(e) => {
            return Err(decode_error_text(&e));
        },
    }
    match serialize_await_transaction_result(receipt) {
        Ok(b) => Ok(b),
        Err(_) => {
            proof {
                assert(false);
            }
            Err(String::new())
        },
    }
}

/// Handles sending a transaction and waiting for its receipt around the
/// provider's work, as `get_chain_id_wrapped` does for its call.
pub fn send_transaction_and_wait_wrapped(
    args: &[u8],
    receipt: &crate::wrap_types::TxReceipt,
) -> (r: Result<Vec<u8>, String>)
    ensures
        r matches Ok(b) ==> b@ == crate::serialization::tx_receipt_bytes(*receipt),
{
    match deserialize_send_transaction_and_wait_args(args) {
        Ok(_parsed) => {},
        Err(e) => {
            return Err(decode_error_text(&e));
        },
    }
    match serialize_send_transaction_and_wait_result(receipt) {
        Ok(b) => Ok(b),
        Err(_) => {
            proof {
                assert(false);
            }
            Err(String::new())
        },
    }
}

/// Handles a state-changing contract call that waits for its receipt
/// around the provider's work, as `get_chain_id_wrapped` does for its
/// call.
pub fn call_contract_method_and_wait_wrapped(
    args: &[u8],
    receipt: &crate::wrap_types::TxReceipt,
) -> (r: Result<Vec<u8>, String>)
    ensures
        r matches Ok(b) ==> b@ == crate::serialization::tx_receipt_bytes(*receipt),
{
    match deserialize_call_contract_method_and_wait_args(args) {
        Ok(_parsed) => {},
        Err(e) => {
            return Err(decode_error_text(&e));
        },
    }
    match serialize_call_contract_method_and_wait_result(receipt) {
        Ok(b) => Ok(b),
        Err(_) => {
            proof {
                assert(false);
            }
            Err(String::new())
        },
    }
}

/// Handles sending a transaction around the provider's work, as
/// `get_chain_id_wrapped` does for its call; the provider's transaction
/// response is encoded back.
pub fn send_transaction_wrapped(
    args: &[u8],
    response: &crate::wrap_types::TxResponse,
) -> (r: Result<Vec<u8>, String>)
    requires
        response.access_list matches Some(l) ==> forall|i: int|
            0 <= i < l@.len() ==> (#[trigger] l@[i]).storage_keys@.len() <= u32::MAX,
    ensures
        r matches Ok(b) ==> b@ == crate::serialization::tx_response_bytes(*response),
{
    match deserialize_send_transaction_args(args) {
        Ok(_parsed) => {},
        Err(e) => {
            return Err(decode_error_text(&e));
        },
    }
    match serialize_send_transaction_result(response) {
        Ok(b) => Ok(b),
        Err(_) => {
            proof {
                assert(false);
            }
            Err(String::new())
        },
    }
}

/// Handles a state-changing contract call around the provider's work, as
/// `get_chain_id_wrapped` does for its call; the provider's transaction
/// response is encoded back.
pub fn call_contract_method_wrapped(
    args: &[u8],
    response: &crate::wrap_types::TxResponse,
) -> (r: Result<Vec<u8>, String>)
    requires
        response.access_list matches Some(l) ==> forall|i: int|
            0 <= i < l@.len() ==> (#[trigger] l@[i]).storage_keys@.len() <= u32::MAX,
    ensures
        r matches Ok(b) ==> b@ == crate::serialization::tx_response_bytes(*response),
{
    match deserialize_call_contract_method_args(args) {
        Ok(_parsed) => {},
        Err(e) => {
            return Err(decode_error_text(&e));
        },
    }
    match serialize_call_contract_method_result(response) {
        Ok(b) => Ok(b),
        Err(_) => {
            proof {
                assert(false);
            }
            Err(String::new())
        },
    }
}

} // verus!
