//! Reading and writing the module's argument and result messages in the
//! plugin's MessagePack wire format.

use vstd::prelude::*;
use polywrap_wasm_rs::{DecodeError, EncodeError, ReadDecoder, WriteEncoder};
use crate::msgpack::{
    decoder_is_next_nil,
    encoder_write_optional_u32,
    encoder_write_u32,
    msgpack_opt_uint_bytes,
    msgpack_uint_bytes,
    decoder_read_optional_bigint_text,
    decoder_read_optional_u32,
    decoder_read_array_length,
    decoder_read_bool,
    decoder_read_map_length,
    decoder_read_optional_string,
    decoder_read_string,
    encoder_buffer,
    encoder_write_bool,
    encoder_write_map_length,
    encoder_write_nil,
    encoder_write_optional_string,
    encoder_write_string,
    encoder_bytes,
    missing_field_error,
    msgpack_bool_bytes,
    msgpack_map_len_bytes,
    msgpack_nil_bytes,
    msgpack_opt_str_bytes,
    msgpack_str_bytes,
    new_decoder,
    new_encoder,
    unknown_field_error,
};
use crate::type_parser::str_eq_str;
use crate::wrap_types::{
    AccessItem,
    ArgsAwaitTransaction,
    Log,
    TxReceipt,
    TxResponse,
    ArgsCallContractMethod,
    ArgsCallContractMethodAndWait,
    ArgsCallContractStatic,
    ArgsCallContractView,
    ArgsDeployContract,
    ArgsEstimateContractCallGas,
    ArgsEstimateTransactionGas,
    ArgsGetBalance,
    ArgsGetSignerBalance,
    ArgsGetSignerTransactionCount,
    Eip1559FeesEstimate,
    ArgsCheckAddress,
    ArgsDecodeFunction,
    ArgsEncodeFunction,
    ArgsEncodeParams,
    ArgsGetChainId,
    ArgsGetSignerAddress,
    ArgsRequest,
    ArgsSendRpc,
    ArgsSignMessage,
    ArgsToEth,
    ArgsSendTransaction,
    ArgsSendTransactionAndWait,
    ArgsToWei,
    ProviderConnection,
    StaticTxResult,
    TxOptions,
    TxRequest,
};

verus! {

/// The spec-level optional view of an optional string.
pub open spec fn opt_view(s: Option<String>) -> Option<Seq<char>> {
    match s {
        Some(v) => Some(v@),
        None => None,
    }
}

/// The wire spelling of a provider connection: a two-pair map holding the
/// node and the network name, each an optional string.
pub open spec fn provider_connection_bytes(c: ProviderConnection) -> Seq<u8> {
    msgpack_map_len_bytes(2) + msgpack_str_bytes("node"@) + msgpack_opt_str_bytes(opt_view(c.node))
        + msgpack_str_bytes("networkNameOrChainId"@) + msgpack_opt_str_bytes(
        opt_view(c.network_name_or_chain_id),
    )
}

/// The wire spelling of an optional connection field value.
pub open spec fn opt_connection_bytes(c: Option<ProviderConnection>) -> Seq<u8> {
    match c {
        Some(pc) => provider_connection_bytes(pc),
        None => msgpack_nil_bytes(),
    }
}

/// Writes a provider connection.
pub fn write_provider_connection(args: &ProviderConnection, writer: &mut WriteEncoder)
    ensures
        encoder_bytes(*final(writer)) == encoder_bytes(*old(writer)) + provider_connection_bytes(
            *args,
        ),
{
    encoder_write_map_length(writer, 2);
    encoder_write_string(writer, "node");
    encoder_write_optional_string(writer, &args.node);
    encoder_write_string(writer, "networkNameOrChainId");
    encoder_write_optional_string(writer, &args.network_name_or_chain_id);
    proof {
        assert(encoder_bytes(*writer) =~= encoder_bytes(*old(writer))
            + provider_connection_bytes(*args));
    }
}

/// Serializes a provider connection into a fresh buffer.
pub fn serialize_provider_connection(args: &ProviderConnection) -> (r: Result<Vec<u8>, EncodeError>)
    ensures
        r matches Ok(b) ==> b@ == provider_connection_bytes(*args),
        r is Ok,
{
    let mut encoder: WriteEncoder = new_encoder();
    write_provider_connection(args, &mut encoder);
    proof {
        assert(Seq::<u8>::empty() + provider_connection_bytes(*args) =~= provider_connection_bytes(
            *args,
        ));
    }
    Ok(encoder_buffer(&encoder))
}

/// Reads a provider connection record: a map whose fields are `node` and
/// `networkNameOrChainId`, any other field name being an error.
pub fn read_provider_connection(reader: &mut ReadDecoder) -> Result<ProviderConnection, DecodeError> {
    let mut num_of_fields: u32 = match decoder_read_map_length(reader) {
        Ok(n) => n,
        Err(e) => {
            return Err(e);
        },
    };
    let mut node: Option<String> = None;
    let mut network: Option<String> = None;
    while num_of_fields > 0
        decreases num_of_fields,
    {
        num_of_fields = num_of_fields - 1;
        let field: String = match decoder_read_string(reader) {
            Ok(f) => f,
            Err(e) => {
                return Err(e);
            },
        };
        if str_eq_str(field.as_str(), "node") {
            node = match decoder_read_optional_string(reader) {
                Ok(v) => v,
                Err(e) => {
                    return Err(e);
                },
            };
        } else if str_eq_str(field.as_str(), "networkNameOrChainId") {
            network = match decoder_read_optional_string(reader) {
                Ok(v) => v,
                Err(e) => {
                    return Err(e);
                },
            };
        } else {
            return Err(unknown_field_error(field.as_str()));
        }
    }
    Ok(ProviderConnection { node, network_name_or_chain_id: network })
}

/// Reads an optional connection argument: nil, or a connection record.
fn read_optional_connection(reader: &mut ReadDecoder) -> Result<
    Option<ProviderConnection>,
    DecodeError,
> {
    let nil: bool = match decoder_is_next_nil(reader) {
        Ok(b) => b,
        Err(e) => {
            return Err(e);
        },
    };
    if nil {
        return Ok(None);
    }
    match read_provider_connection(reader) {
        Ok(c) => Ok(Some(c)),
        Err(e) => Err(e),
    }
}

/// Reads an array of strings: a length, then that many strings.
fn read_string_array(reader: &mut ReadDecoder) -> Result<Vec<String>, DecodeError> {
    let n: u32 = match decoder_read_array_length(reader) {
        Ok(n) => n,
        Err(e) => {
            return Err(e);
        },
    };
    let mut out: Vec<String> = Vec::new();
    let mut i: u32 = 0;
    while i < n
        decreases n - i,
    {
        let s: String = match decoder_read_string(reader) {
            Ok(s) => s,
            Err(e) => {
                return Err(e);
            },
        };
        out.push(s);
        i = i + 1;
    }
    Ok(out)
}

/// Deserializes the arguments of the ether-to-wei conversion: a map with
/// the one field `eth`.
pub fn deserialize_to_wei_args(args: &[u8]) -> Result<ArgsToWei, DecodeError> {
    let mut reader: ReadDecoder = new_decoder(args);
    let mut num_of_fields: u32 = match decoder_read_map_length(&mut reader) {
        Ok(n) => n,
        Err(e) => {
            return Err(e);
        },
    };
    let mut eth: String = String::new();
    let mut eth_set: bool = false;
    while num_of_fields > 0
        decreases num_of_fields,
    {
        num_of_fields = num_of_fields - 1;
        let field: String = match decoder_read_string(&mut reader) {
            Ok(f) => f,
            Err(e) => {
                return Err(e);
            },
        };
        if str_eq_str(field.as_str(), "eth") {
            eth = match decoder_read_string(&mut reader) {
                Ok(v) => v,
                Err(e) => {
                    return Err(e);
                },
            };
            eth_set = true;
        } else {
            return Err(unknown_field_error(field.as_str()));
        }
    }
    if !eth_set {
        return Err(missing_field_error("eth: String."));
    }
    Ok(ArgsToWei { eth })
}

/// Serializes the ether-to-wei result: one string.
pub fn serialize_to_wei_result(result: &String) -> (r: Result<Vec<u8>, EncodeError>)
    ensures
        r matches Ok(b) ==> b@ == msgpack_str_bytes(result@),
        r is Ok,
{
    serialize_string_result(result)
}

/// Deserializes the arguments of the wei-to-ether conversion: a map with
/// the one field `wei`.
pub fn deserialize_to_eth_args(args: &[u8]) -> Result<ArgsToEth, DecodeError> {
    let mut reader: ReadDecoder = new_decoder(args);
    let mut num_of_fields: u32 = match decoder_read_map_length(&mut reader) {
        Ok(n) => n,
        Err(e) => {
            return Err(e);
        },
    };
    let mut wei: String = String::new();
    let mut wei_set: bool = false;
    while num_of_fields > 0
        decreases num_of_fields,
    {
        num_of_fields = num_of_fields - 1;
        let field: String = match decoder_read_string(&mut reader) {
            Ok(f) => f,
            Err(e) => {
                return Err(e);
            },
        };
        if str_eq_str(field.as_str(), "wei") {
            wei = match decoder_read_string(&mut reader) {
                Ok(v) => v,
                Err(e) => {
                    return Err(e);
                },
            };
            wei_set = true;
        } else {
            return Err(unknown_field_error(field.as_str()));
        }
    }
    if !wei_set {
        return Err(missing_field_error("wei: String."));
    }
    Ok(ArgsToEth { wei })
}

/// Serializes the wei-to-ether result: one string.
pub fn serialize_to_eth_result(result: &String) -> (r: Result<Vec<u8>, EncodeError>)
    ensures
        r matches Ok(b) ==> b@ == msgpack_str_bytes(result@),
        r is Ok,
{
    serialize_string_result(result)
}

/// Serializes a one-string result message.
fn serialize_string_result(result: &String) -> (r: Result<Vec<u8>, EncodeError>)
    ensures
        r matches Ok(b) ==> b@ == msgpack_str_bytes(result@),
        r is Ok,
{
    let mut encoder: WriteEncoder = new_encoder();
    encoder_write_string(&mut encoder, result.as_str());
    proof {
        assert(Seq::<u8>::empty() + msgpack_str_bytes(result@) =~= msgpack_str_bytes(result@));
    }
    Ok(encoder_buffer(&encoder))
}

/// Deserializes the arguments of the address check: a map with the fields
/// `address` and `connection`.
pub fn deserialize_check_address_args(args: &[u8]) -> Result<ArgsCheckAddress, DecodeError> {
    let mut reader: ReadDecoder = new_decoder(args);
    let mut num_of_fields: u32 = match decoder_read_map_length(&mut reader) {
        Ok(n) => n,
        Err(e) => {
            return Err(e);
        },
    };
    let mut address: String = String::new();
    let mut address_set: bool = false;
    let mut connection: Option<ProviderConnection> = None;
    while num_of_fields > 0
        decreases num_of_fields,
    {
        num_of_fields = num_of_fields - 1;
        let field: String = match decoder_read_string(&mut reader) {
            Ok(f) => f,
            Err(e) => {
                return Err(e);
            },
        };
        if str_eq_str(field.as_str(), "address") {
            address = match decoder_read_string(&mut reader) {
                Ok(v) => v,
                Err(e) => {
                    return Err(e);
                },
            };
            address_set = true;
        } else if str_eq_str(field.as_str(), "connection") {
            connection = match read_optional_connection(&mut reader) {
                Ok(v) => v,
                Err(e) => {
                    return Err(e);
                },
            };
        } else {
            return Err(unknown_field_error(field.as_str()));
        }
    }
    if !address_set {
        return Err(missing_field_error("address: String."));
    }
    Ok(ArgsCheckAddress { address, connection })
}

/// Serializes the address check result: one boolean.
pub fn serialize_check_address_result(result: &bool) -> (r: Result<Vec<u8>, EncodeError>)
    ensures
        r matches Ok(b) ==> b@ == msgpack_bool_bytes(*result),
        r is Ok,
{
    let mut encoder: WriteEncoder = new_encoder();
    encoder_write_bool(&mut encoder, *result);
    proof {
        assert(Seq::<u8>::empty() + msgpack_bool_bytes(*result) =~= msgpack_bool_bytes(*result));
    }
    Ok(encoder_buffer(&encoder))
}

/// Deserializes the arguments of the chain id query: a map with the one
/// field `connection`.
pub fn deserialize_get_chain_id_args(args: &[u8]) -> Result<ArgsGetChainId, DecodeError> {
    match deserialize_connection_only(args) {
        Ok(c) => Ok(ArgsGetChainId { connection: c }),
        Err(e) => Err(e),
    }
}

/// Serializes the chain id result: one string.
pub fn serialize_get_chain_id_result(result: &String) -> (r: Result<Vec<u8>, EncodeError>)
    ensures
        r matches Ok(b) ==> b@ == msgpack_str_bytes(result@),
        r is Ok,
{
    serialize_string_result(result)
}

/// Deserializes the arguments of the signer address query: a map with the
/// one field `connection`.
pub fn deserialize_get_signer_address_args(args: &[u8]) -> Result<ArgsGetSignerAddress, DecodeError> {
    match deserialize_connection_only(args) {
        Ok(c) => Ok(ArgsGetSignerAddress { connection: c }),
        Err(e) => Err(e),
    }
}

/// Serializes the signer address result: one string.
pub fn serialize_get_signer_address_result(result: &String) -> (r: Result<Vec<u8>, EncodeError>)
    ensures
        r matches Ok(b) ==> b@ == msgpack_str_bytes(result@),
        r is Ok,
{
    serialize_string_result(result)
}

/// Reads an argument map holding only an optional `connection` field.
fn deserialize_connection_only(args: &[u8]) -> Result<Option<ProviderConnection>, DecodeError> {
    let mut reader: ReadDecoder = new_decoder(args);
    let mut num_of_fields: u32 = match decoder_read_map_length(&mut reader) {
        Ok(n) => n,
        Err(e) => {
            return Err(e);
        },
    };
    let mut connection: Option<ProviderConnection> = None;
    while num_of_fields > 0
        decreases num_of_fields,
    {
        num_of_fields = num_of_fields - 1;
        let field: String = match decoder_read_string(&mut reader) {
            Ok(f) => f,
            Err(e) => {
                return Err(e);
            },
        };
        if str_eq_str(field.as_str(), "connection") {
            connection = match read_optional_connection(&mut reader) {
                Ok(v) => v,
                Err(e) => {
                    return Err(e);
                },
            };
        } else {
            return Err(unknown_field_error(field.as_str()));
        }
    }
    Ok(connection)
}

/// Deserializes the arguments of a raw JSON-RPC request: a map with the
/// fields `method`, `params` and `connection`.
pub fn deserialize_send_rpc_args(args: &[u8]) -> Result<ArgsSendRpc, DecodeError> {
    let mut reader: ReadDecoder = new_decoder(args);
    let mut num_of_fields: u32 = match decoder_read_map_length(&mut reader) {
        Ok(n) => n,
        Err(e) => {
            return Err(e);
        },
    };
    let mut method: String = String::new();
    let mut method_set: bool = false;
    let mut params: Vec<String> = Vec::new();
    let mut params_set: bool = false;
    let mut connection: Option<ProviderConnection> = None;
    while num_of_fields > 0
        decreases num_of_fields,
    {
        num_of_fields = num_of_fields - 1;
        let field: String = match decoder_read_string(&mut reader) {
            Ok(f) => f,
            Err(e) => {
                return Err(e);
            },
        };
        if str_eq_str(field.as_str(), "method") {
            method = match decoder_read_string(&mut reader) {
                Ok(v) => v,
                Err(e) => {
                    return Err(e);
                },
            };
            method_set = true;
        } else if str_eq_str(field.as_str(), "params") {
            params = match read_string_array(&mut reader) {
                Ok(v) => v,
                Err(e) => {
                    return Err(e);
                },
            };
            params_set = true;
        } else if str_eq_str(field.as_str(), "connection") {
            connection = match read_optional_connection(&mut reader) {
                Ok(v) => v,
                Err(e) => {
                    return Err(e);
                },
            };
        } else {
            return Err(unknown_field_error(field.as_str()));
        }
    }
    if !method_set {
        return Err(missing_field_error("method: String."));
    }
    if !params_set {
        return Err(missing_field_error("params: [String]."));
    }
    Ok(ArgsSendRpc { method, params, connection })
}

/// Serializes the raw JSON-RPC result: one string.
pub fn serialize_send_rpc_result(result: &String) -> (r: Result<Vec<u8>, EncodeError>)
    ensures
        r matches Ok(b) ==> b@ == msgpack_str_bytes(result@),
        r is Ok,
{
    serialize_string_result(result)
}

/// Deserializes the arguments of signing a message: a map with the fields
/// `message` and `connection`.
pub fn deserialize_sign_message_args(args: &[u8]) -> Result<ArgsSignMessage, DecodeError> {
    let mut reader: ReadDecoder = new_decoder(args);
    let mut num_of_fields: u32 = match decoder_read_map_length(&mut reader) {
        Ok(n) => n,
        Err(e) => {
            return Err(e);
        },
    };
    let mut message: String = String::new();
    let mut message_set: bool = false;
    let mut connection: Option<ProviderConnection> = None;
    while num_of_fields > 0
        decreases num_of_fields,
    {
        num_of_fields = num_of_fields - 1;
        let field: String = match decoder_read_string(&mut reader) {
            Ok(f) => f,
            Err(e) => {
                return Err(e);
            },
        };
        if str_eq_str(field.as_str(), "message") {
            message = match decoder_read_string(&mut reader) {
                Ok(v) => v,
                Err(e) => {
                    return Err(e);
                },
            };
            message_set = true;
        } else if str_eq_str(field.as_str(), "connection") {
            connection = match read_optional_connection(&mut reader) {
                Ok(v) => v,
                Err(e) => {
                    return Err(e);
                },
            };
        } else {
            return Err(unknown_field_error(field.as_str()));
        }
    }
    if !message_set {
        return Err(missing_field_error("message: String."));
    }
    Ok(ArgsSignMessage { message, connection })
}

/// Serializes the message signing result: one string.
pub fn serialize_sign_message_result(result: &String) -> (r: Result<Vec<u8>, EncodeError>)
    ensures
        r matches Ok(b) ==> b@ == msgpack_str_bytes(result@),
        r is Ok,
{
    serialize_string_result(result)
}

/// Deserializes the arguments of parameter encoding: a map with the
/// fields `types`, `values` and `connection`.
pub fn deserialize_encode_params_args(args: &[u8]) -> Result<ArgsEncodeParams, DecodeError> {
    let mut reader: ReadDecoder = new_decoder(args);
    let mut num_of_fields: u32 = match decoder_read_map_length(&mut reader) {
        Ok(n) => n,
        Err(e) => {
            return Err(e);
        },
    };
    let mut types: Vec<String> = Vec::new();
    let mut types_set: bool = false;
    let mut values: Vec<String> = Vec::new();
    let mut values_set: bool = false;
    let mut connection: Option<ProviderConnection> = None;
    while num_of_fields > 0
        decreases num_of_fields,
    {
        num_of_fields = num_of_fields - 1;
        let field: String = match decoder_read_string(&mut reader) {
            Ok(f) => f,
            Err(e) => {
                return Err(e);
            },
        };
        if str_eq_str(field.as_str(), "types") {
            types = match read_string_array(&mut reader) {
                Ok(v) => v,
                Err(e) => {
                    return Err(e);
                },
            };
            types_set = true;
        } else if str_eq_str(field.as_str(), "values") {
            values = match read_string_array(&mut reader) {
                Ok(v) => v,
                Err(e) => {
                    return Err(e);
                },
            };
            values_set = true;
        } else if str_eq_str(field.as_str(), "connection") {
            connection = match read_optional_connection(&mut reader) {
                Ok(v) => v,
                Err(e) => {
                    return Err(e);
                },
            };
        } else {
            return Err(unknown_field_error(field.as_str()));
        }
    }
    if !types_set {
        return Err(missing_field_error("types: [String]."));
    }
    if !values_set {
        return Err(missing_field_error("values: [String]."));
    }
    Ok(ArgsEncodeParams { types, values, connection })
}

/// Serializes the parameter encoding result: one string.
pub fn serialize_encode_params_result(result: &String) -> (r: Result<Vec<u8>, EncodeError>)
    ensures
        r matches Ok(b) ==> b@ == msgpack_str_bytes(result@),
        r is Ok,
{
    serialize_string_result(result)
}

/// The wire spelling of a raw provider request.
pub open spec fn request_args_bytes(a: ArgsRequest) -> Seq<u8> {
    msgpack_map_len_bytes(3) + msgpack_str_bytes("method"@) + msgpack_str_bytes(a.method@)
        + msgpack_str_bytes("params"@) + msgpack_opt_str_bytes(opt_view(a.params))
        + msgpack_str_bytes("connection"@) + opt_connection_bytes(a.connection)
}

/// Serializes the arguments of a raw provider request: a three-pair map
/// holding the method, the optional serialized parameters, and the
/// optional connection.
pub fn serialize_request_args(args: &ArgsRequest) -> (r: Result<Vec<u8>, EncodeError>)
    ensures
        r matches Ok(b) ==> b@ == request_args_bytes(*args),
        r is Ok,
{
    let mut encoder: WriteEncoder = new_encoder();
    encoder_write_map_length(&mut encoder, 3);
    encoder_write_string(&mut encoder, "method");
    encoder_write_string(&mut encoder, args.method.as_str());
    encoder_write_string(&mut encoder, "params");
    encoder_write_optional_string(&mut encoder, &args.params);
    encoder_write_string(&mut encoder, "connection");
    match &args.connection {
        Some(c) => {
            write_provider_connection(c, &mut encoder);
        },
        None => {
            encoder_write_nil(&mut encoder);
        },
    }
    proof {
        assert(encoder_bytes(encoder) =~= request_args_bytes(*args));
    }
    Ok(encoder_buffer(&encoder))
}

/// Reads an optional array of strings: nil, or a string array.
fn read_optional_string_array(reader: &mut ReadDecoder) -> Result<Option<Vec<String>>, DecodeError> {
    let nil: bool = match decoder_is_next_nil(reader) {
        Ok(b) => b,
        Err(e) => {
            return Err(e);
        },
    };
    if nil {
        return Ok(None);
    }
    match read_string_array(reader) {
        Ok(v) => Ok(Some(v)),
        Err(e) => Err(e),
    }
}

/// Deserializes the arguments of a read-only contract call: a map with
/// the fields `address`, `method`, `args` and `connection`.
pub fn deserialize_call_contract_view_args(args: &[u8]) -> Result<ArgsCallContractView, DecodeError> {
    let mut reader: ReadDecoder = new_decoder(args);
    let mut num_of_fields: u32 = match decoder_read_map_length(&mut reader) {
        Ok(n) => n,
        Err(e) => {
            return Err(e);
        },
    };
    let mut address: String = String::new();
    let mut address_set: bool = false;
    let mut method: String = String::new();
    let mut method_set: bool = false;
    let mut call_args: Option<Vec<String>> = None;
    let mut connection: Option<ProviderConnection> = None;
    while num_of_fields > 0
        decreases num_of_fields,
    {
        num_of_fields = num_of_fields - 1;
        let field: String = match decoder_read_string(&mut reader) {
            Ok(f) => f,
            Err(e) => {
                return Err(e);
            },
        };
        if str_eq_str(field.as_str(), "address") {
            address = match decoder_read_string(&mut reader) {
                Ok(v) => v,
                Err(e) => {
                    return Err(e);
                },
            };
            address_set = true;
        } else if str_eq_str(field.as_str(), "method") {
            method = match decoder_read_string(&mut reader) {
                Ok(v) => v,
                Err(e) => {
                    return Err(e);
                },
            };
            method_set = true;
        } else if str_eq_str(field.as_str(), "args") {
            call_args = match read_optional_string_array(&mut reader) {
                Ok(v) => v,
                Err(e) => {
                    return Err(e);
                },
            };
        } else if str_eq_str(field.as_str(), "connection") {
            connection = match read_optional_connection(&mut reader) {
                Ok(v) => v,
                Err(e) => {
                    return Err(e);
                },
            };
        } else {
            return Err(unknown_field_error(field.as_str()));
        }
    }
    if !address_set {
        return Err(missing_field_error("address: String."));
    }
    if !method_set {
        return Err(missing_field_error("method: String."));
    }
    Ok(ArgsCallContractView { address, method, args: call_args, connection })
}

/// Serializes the read-only contract call result: one string.
pub fn serialize_call_contract_view_result(result: &String) -> (r: Result<Vec<u8>, EncodeError>)
    ensures
        r matches Ok(b) ==> b@ == msgpack_str_bytes(result@),
        r is Ok,
{
    serialize_string_result(result)
}

/// Deserializes the arguments of a function-call encoding: a map with
/// the fields `method`, `args` and `connection`.
pub fn deserialize_encode_function_args(args: &[u8]) -> Result<ArgsEncodeFunction, DecodeError> {
    let mut reader: ReadDecoder = new_decoder(args);
    let mut num_of_fields: u32 = match decoder_read_map_length(&mut reader) {
        Ok(n) => n,
        Err(e) => {
            return Err(e);
        },
    };
    let mut method: String = String::new();
    let mut method_set: bool = false;
    let mut call_args: Option<Vec<String>> = None;
    let mut connection: Option<ProviderConnection> = None;
    while num_of_fields > 0
        decreases num_of_fields,
    {
        num_of_fields = num_of_fields - 1;
        let field: String = match decoder_read_string(&mut reader) {
            Ok(f) => f,
            Err(e) => {
                return Err(e);
            },
        };
        if str_eq_str(field.as_str(), "method") {
            method = match decoder_read_string(&mut reader) {
                Ok(v) => v,
                Err(e) => {
                    return Err(e);
                },
            };
            method_set = true;
        } else if str_eq_str(field.as_str(), "args") {
            call_args = match read_optional_string_array(&mut reader) {
                Ok(v) => v,
                Err(e) => {
                    return Err(e);
                },
            };
        } else if str_eq_str(field.as_str(), "connection") {
            connection = match read_optional_connection(&mut reader) {
                Ok(v) => v,
                Err(e) => {
                    return Err(e);
                },
            };
        } else {
            return Err(unknown_field_error(field.as_str()));
        }
    }
    if !method_set {
        return Err(missing_field_error("method: String."));
    }
    Ok(ArgsEncodeFunction { method, args: call_args, connection })
}

/// Serializes the function-call encoding result: one string.
pub fn serialize_encode_function_result(result: &String) -> (r: Result<Vec<u8>, EncodeError>)
    ensures
        r matches Ok(b) ==> b@ == msgpack_str_bytes(result@),
        r is Ok,
{
    serialize_string_result(result)
}

/// Deserializes the arguments of a function-result decoding: a map with
/// the fields `method`, `data` and `connection`.
pub fn deserialize_decode_function_args(args: &[u8]) -> Result<ArgsDecodeFunction, DecodeError> {
    let mut reader: ReadDecoder = new_decoder(args);
    let mut num_of_fields: u32 = match decoder_read_map_length(&mut reader) {
        Ok(n) => n,
        Err(e) => {
            return Err(e);
        },
    };
    let mut method: String = String::new();
    let mut method_set: bool = false;
    let mut data: String = String::new();
    let mut data_set: bool = false;
    let mut connection: Option<ProviderConnection> = None;
    while num_of_fields > 0
        decreases num_of_fields,
    {
        num_of_fields = num_of_fields - 1;
        let field: String = match decoder_read_string(&mut reader) {
            Ok(f) => f,
            Err(e) => {
                return Err(e);
            },
        };
        if str_eq_str(field.as_str(), "method") {
            method = match decoder_read_string(&mut reader) {
                Ok(v) => v,
                Err(e) => {
                    return Err(e);
                },
            };
            method_set = true;
        } else if str_eq_str(field.as_str(), "data") {
            data = match decoder_read_string(&mut reader) {
                Ok(v) => v,
                Err(e) => {
                    return Err(e);
                },
            };
            data_set = true;
        } else if str_eq_str(field.as_str(), "connection") {
            connection = match read_optional_connection(&mut reader) {
                Ok(v) => v,
                Err(e) => {
                    return Err(e);
                },
            };
        } else {
            return Err(unknown_field_error(field.as_str()));
        }
    }
    if !method_set {
        return Err(missing_field_error("method: String."));
    }
    if !data_set {
        return Err(missing_field_error("data: String."));
    }
    Ok(ArgsDecodeFunction { method, data, connection })
}

/// The wire spelling of a string array: an array header, then each
/// string in order.
pub open spec fn msgpack_str_array_bytes(v: Seq<Seq<char>>) -> Seq<u8>
    decreases v.len(),
{
    if v.len() == 0 {
        Seq::empty()
    } else {
        msgpack_str_bytes(v[0]) + msgpack_str_array_bytes(v.drop_first())
    }
}

pub proof fn lemma_msgpack_str_array_push(v: Seq<Seq<char>>, x: Seq<char>)
    ensures
        msgpack_str_array_bytes(v.push(x)) =~= msgpack_str_array_bytes(v) + msgpack_str_bytes(x),
    decreases v.len(),
{
    reveal_with_fuel(msgpack_str_array_bytes, 3);
    if v.len() == 0 {
        assert(v.push(x).drop_first() =~= Seq::<Seq<char>>::empty());
        assert(v.push(x)[0] =~= x);
        assert(msgpack_str_bytes(x) + Seq::<u8>::empty() =~= msgpack_str_bytes(x));
    } else {
        assert(v.push(x).drop_first() =~= v.drop_first().push(x));
        lemma_msgpack_str_array_push(v.drop_first(), x);
        assert(v.push(x)[0] =~= v[0]);
        assert(msgpack_str_bytes(v[0]) + (msgpack_str_array_bytes(v.drop_first())
            + msgpack_str_bytes(x)) =~= (msgpack_str_bytes(v[0]) + msgpack_str_array_bytes(
            v.drop_first(),
        )) + msgpack_str_bytes(x));
    }
}

/// Serializes the function-result decoding result: an array of strings,
/// one per decoded value.
pub fn serialize_decode_function_result(result: &Vec<String>) -> (r: Result<Vec<u8>, EncodeError>)
    ensures
        r matches Ok(b) ==> b@ == str_array_field_bytes(result.deep_view()),
        r is Ok,
{
    let mut encoder: WriteEncoder = new_encoder();
    write_string_array(result, &mut encoder);
    proof {
        assert(Seq::<u8>::empty() + str_array_field_bytes(result.deep_view())
            =~= str_array_field_bytes(result.deep_view()));
    }
    Ok(encoder_buffer(&encoder))
}

/// Deserializes the arguments of the gas price query: a map with the one
/// field `connection`.
pub fn deserialize_get_gas_price_args(args: &[u8]) -> Result<
    crate::wrap_types::ArgsGetGasPrice,
    DecodeError,
> {
    match deserialize_connection_only(args) {
        Ok(c) => Ok(crate::wrap_types::ArgsGetGasPrice { connection: c }),
        Err(e) => Err(e),
    }
}

/// Serializes the gas price result: one big integer, spelled in decimal.
pub fn serialize_get_gas_price_result(result: &String) -> (r: Result<Vec<u8>, EncodeError>)
    ensures
        r matches Ok(b) ==> b@ == msgpack_str_bytes(result@),
        r is Ok,
{
    serialize_string_result(result)
}

/// Deserializes the arguments of the fee estimate: a map with the one
/// field `connection`.
pub fn deserialize_estimate_eip1559_fees_args(args: &[u8]) -> Result<
    crate::wrap_types::ArgsEstimateEip1559Fees,
    DecodeError,
> {
    match deserialize_connection_only(args) {
        Ok(c) => Ok(crate::wrap_types::ArgsEstimateEip1559Fees { connection: c }),
        Err(e) => Err(e),
    }
}

/// The wire spelling of a fee estimate: a two-pair map of the two fees,
/// each a big integer spelled in decimal.
pub open spec fn eip1559_fees_estimate_bytes(f: Eip1559FeesEstimate) -> Seq<u8> {
    msgpack_map_len_bytes(2) + msgpack_str_bytes("maxFeePerGas"@) + msgpack_str_bytes(
        f.max_fee_per_gas@,
    ) + msgpack_str_bytes("maxPriorityFeePerGas"@) + msgpack_str_bytes(
        f.max_priority_fee_per_gas@,
    )
}

/// Serializes the fee estimate result.
pub fn serialize_estimate_eip1559_fees_result(result: &Eip1559FeesEstimate) -> (r: Result<
    Vec<u8>,
    EncodeError,
>)
    ensures
        r matches Ok(b) ==> b@ == eip1559_fees_estimate_bytes(*result),
        r is Ok,
{
    let mut encoder: WriteEncoder = new_encoder();
    encoder_write_map_length(&mut encoder, 2);
    encoder_write_string(&mut encoder, "maxFeePerGas");
    encoder_write_string(&mut encoder, result.max_fee_per_gas.as_str());
    encoder_write_string(&mut encoder, "maxPriorityFeePerGas");
    encoder_write_string(&mut encoder, result.max_priority_fee_per_gas.as_str());
    proof {
        assert(encoder_bytes(encoder) =~= eip1559_fees_estimate_bytes(*result));
    }
    Ok(encoder_buffer(&encoder))
}

/// Deserializes the arguments of the signer balance query: a map with
/// the fields `blockTag` and `connection`.
pub fn deserialize_get_signer_balance_args(args: &[u8]) -> Result<ArgsGetSignerBalance, DecodeError> {
    let mut reader: ReadDecoder = new_decoder(args);
    let mut num_of_fields: u32 = match decoder_read_map_length(&mut reader) {
        Ok(n) => n,
        Err(e) => {
            return Err(e);
        },
    };
    let mut block_tag: Option<String> = None;
    let mut connection: Option<ProviderConnection> = None;
    while num_of_fields > 0
        decreases num_of_fields,
    {
        num_of_fields = num_of_fields - 1;
        let field: String = match decoder_read_string(&mut reader) {
            Ok(f) => f,
            Err(e) => {
                return Err(e);
            },
        };
        if str_eq_str(field.as_str(), "blockTag") {
            block_tag = match decoder_read_optional_bigint_text(&mut reader) {
                Ok(v) => v,
                Err(e) => {
                    return Err(e);
                },
            };
        } else if str_eq_str(field.as_str(), "connection") {
            connection = match read_optional_connection(&mut reader) {
                Ok(v) => v,
                Err(e) => {
                    return Err(e);
                },
            };
        } else {
            return Err(unknown_field_error(field.as_str()));
        }
    }
    Ok(ArgsGetSignerBalance { block_tag, connection })
}

/// Serializes the signer balance result: one big integer, in decimal.
pub fn serialize_get_signer_balance_result(result: &String) -> (r: Result<Vec<u8>, EncodeError>)
    ensures
        r matches Ok(b) ==> b@ == msgpack_str_bytes(result@),
        r is Ok,
{
    serialize_string_result(result)
}

/// Deserializes the arguments of an account balance query: a map with
/// the fields `address`, `blockTag` and `connection`.
pub fn deserialize_get_balance_args(args: &[u8]) -> Result<ArgsGetBalance, DecodeError> {
    let mut reader: ReadDecoder = new_decoder(args);
    let mut num_of_fields: u32 = match decoder_read_map_length(&mut reader) {
        Ok(n) => n,
        Err(e) => {
            return Err(e);
        },
    };
    let mut address: String = String::new();
    let mut address_set: bool = false;
    let mut block_tag: Option<String> = None;
    let mut connection: Option<ProviderConnection> = None;
    while num_of_fields > 0
        decreases num_of_fields,
    {
        num_of_fields = num_of_fields - 1;
        let field: String = match decoder_read_string(&mut reader) {
            Ok(f) => f,
            Err(e) => {
                return Err(e);
            },
        };
        if str_eq_str(field.as_str(), "address") {
            address = match decoder_read_string(&mut reader) {
                Ok(v) => v,
                Err(e) => {
                    return Err(e);
                },
            };
            address_set = true;
        } else if str_eq_str(field.as_str(), "blockTag") {
            block_tag = match decoder_read_optional_bigint_text(&mut reader) {
                Ok(v) => v,
                Err(e) => {
                    return Err(e);
                },
            };
        } else if str_eq_str(field.as_str(), "connection") {
            connection = match read_optional_connection(&mut reader) {
                Ok(v) => v,
                Err(e) => {
                    return Err(e);
                },
            };
        } else {
            return Err(unknown_field_error(field.as_str()));
        }
    }
    if !address_set {
        return Err(missing_field_error("address: String."));
    }
    Ok(ArgsGetBalance { address, block_tag, connection })
}

/// Serializes the account balance result: one big integer, in decimal.
pub fn serialize_get_balance_result(result: &String) -> (r: Result<Vec<u8>, EncodeError>)
    ensures
        r matches Ok(b) ==> b@ == msgpack_str_bytes(result@),
        r is Ok,
{
    serialize_string_result(result)
}

/// Deserializes the arguments of the signer transaction count query: a
/// map with the fields `blockTag` and `connection`.
pub fn deserialize_get_signer_transaction_count_args(args: &[u8]) -> Result<
    ArgsGetSignerTransactionCount,
    DecodeError,
> {
    match deserialize_get_signer_balance_args(args) {
        Ok(a) => Ok(
            ArgsGetSignerTransactionCount { block_tag: a.block_tag, connection: a.connection },
        ),
        Err(e) => Err(e),
    }
}

/// Serializes the signer transaction count result: one big integer, in
/// decimal.
pub fn serialize_get_signer_transaction_count_result(result: &String) -> (r: Result<
    Vec<u8>,
    EncodeError,
>)
    ensures
        r matches Ok(b) ==> b@ == msgpack_str_bytes(result@),
        r is Ok,
{
    serialize_string_result(result)
}

/// The wire spelling of an access list entry: a two-pair map of the
/// address and the storage keys.
pub open spec fn access_item_bytes(a: AccessItem) -> Seq<u8> {
    msgpack_map_len_bytes(2) + msgpack_str_bytes("address"@) + msgpack_str_bytes(a.address@)
        + msgpack_str_bytes("storageKeys"@) + crate::msgpack::msgpack_array_len_bytes(
        a.storage_keys@.len() as u32,
    ) + msgpack_str_array_bytes(a.storage_keys.deep_view())
}

/// Writes an access list entry.
pub fn write_access_item(args: &AccessItem, writer: &mut WriteEncoder)
    requires
        args.storage_keys@.len() <= u32::MAX,
    ensures
        encoder_bytes(*final(writer)) == encoder_bytes(*old(writer)) + access_item_bytes(*args),
{
    encoder_write_map_length(writer, 2);
    encoder_write_string(writer, "address");
    encoder_write_string(writer, args.address.as_str());
    encoder_write_string(writer, "storageKeys");
    let n: usize = args.storage_keys.len();
    crate::msgpack::encoder_write_array_length(writer, n as u32);
    let ghost base: Seq<u8> = encoder_bytes(*writer);
    let mut i: usize = 0;
    proof {
        assert(args.storage_keys.deep_view().take(0) =~= Seq::<Seq<char>>::empty());
        assert(base + Seq::<u8>::empty() =~= base);
    }
    while i < n
        invariant
            n == args.storage_keys@.len(),
            i <= n,
            encoder_bytes(*writer) =~= base + msgpack_str_array_bytes(
                args.storage_keys.deep_view().take(i as int),
            ),
        decreases n - i,
    {
        proof {
            assert(args.storage_keys@[i as int]@ == args.storage_keys.deep_view()[i as int]);
        }
        encoder_write_string(writer, args.storage_keys[i].as_str());
        proof {
            let dv = args.storage_keys.deep_view();
            assert(dv.take(i + 1 as int) =~= dv.take(i as int).push(dv[i as int]));
            lemma_msgpack_str_array_push(dv.take(i as int), dv[i as int]);
        }
        i = i + 1;
    }
    proof {
        assert(args.storage_keys.deep_view().take(n as int) =~= args.storage_keys.deep_view());
        assert(encoder_bytes(*writer) =~= encoder_bytes(*old(writer)) + access_item_bytes(*args));
    }
}

/// Serializes an access list entry into a fresh buffer.
pub fn serialize_access_item(args: &AccessItem) -> (r: Result<Vec<u8>, EncodeError>)
    requires
        args.storage_keys@.len() <= u32::MAX,
    ensures
        r matches Ok(b) ==> b@ == access_item_bytes(*args),
        r is Ok,
{
    let mut encoder: WriteEncoder = new_encoder();
    write_access_item(args, &mut encoder);
    proof {
        assert(Seq::<u8>::empty() + access_item_bytes(*args) =~= access_item_bytes(*args));
    }
    Ok(encoder_buffer(&encoder))
}

/// Reads an access list entry: a map whose fields `address` and
/// `storageKeys` must both appear.
pub fn read_access_item(reader: &mut ReadDecoder) -> Result<AccessItem, DecodeError> {
    let mut num_of_fields: u32 = match decoder_read_map_length(reader) {
        Ok(n) => n,
        Err(e) => {
            return Err(e);
        },
    };
    let mut address: String = String::new();
    let mut address_set: bool = false;
    let mut storage_keys: Vec<String> = Vec::new();
    let mut storage_keys_set: bool = false;
    while num_of_fields > 0
        decreases num_of_fields,
    {
        num_of_fields = num_of_fields - 1;
        let field: String = match decoder_read_string(reader) {
            Ok(f) => f,
            Err(e) => {
                return Err(e);
            },
        };
        if str_eq_str(field.as_str(), "address") {
            address = match decoder_read_string(reader) {
                Ok(v) => v,
                Err(e) => {
                    return Err(e);
                },
            };
            address_set = true;
        } else if str_eq_str(field.as_str(), "storageKeys") {
            storage_keys = match read_string_array(reader) {
                Ok(v) => v,
                Err(e) => {
                    return Err(e);
                },
            };
            storage_keys_set = true;
        } else {
            return Err(unknown_field_error(field.as_str()));
        }
    }
    if !address_set {
        return Err(missing_field_error("address: String."));
    }
    if !storage_keys_set {
        return Err(missing_field_error("storageKeys: [String]."));
    }
    Ok(AccessItem { address, storage_keys })
}

/// Deserializes an access list entry from a whole buffer.
pub fn deserialize_access_item(args: &[u8]) -> Result<AccessItem, DecodeError> {
    let mut reader: ReadDecoder = new_decoder(args);
    read_access_item(&mut reader)
}

/// The wire spelling of a static call result: a two-pair map of the
/// formatted result and the failure flag.
pub open spec fn static_tx_result_bytes(a: StaticTxResult) -> Seq<u8> {
    msgpack_map_len_bytes(2) + msgpack_str_bytes("result"@) + msgpack_str_bytes(a.result@)
        + msgpack_str_bytes("error"@) + msgpack_bool_bytes(a.error)
}

/// Writes a static call result.
pub fn write_static_tx_result(args: &StaticTxResult, writer: &mut WriteEncoder)
    ensures
        encoder_bytes(*final(writer)) == encoder_bytes(*old(writer)) + static_tx_result_bytes(
            *args,
        ),
{
    encoder_write_map_length(writer, 2);
    encoder_write_string(writer, "result");
    encoder_write_string(writer, args.result.as_str());
    encoder_write_string(writer, "error");
    encoder_write_bool(writer, args.error);
    proof {
        assert(encoder_bytes(*writer) =~= encoder_bytes(*old(writer)) + static_tx_result_bytes(
            *args,
        ));
    }
}

/// Serializes a static call result into a fresh buffer.
pub fn serialize_static_tx_result(args: &StaticTxResult) -> (r: Result<Vec<u8>, EncodeError>)
    ensures
        r matches Ok(b) ==> b@ == static_tx_result_bytes(*args),
        r is Ok,
{
    let mut encoder: WriteEncoder = new_encoder();
    write_static_tx_result(args, &mut encoder);
    proof {
        assert(Seq::<u8>::empty() + static_tx_result_bytes(*args) =~= static_tx_result_bytes(
            *args,
        ));
    }
    Ok(encoder_buffer(&encoder))
}

/// Reads a static call result: a map whose fields `result` and `error`
/// must both appear.
pub fn read_static_tx_result(reader: &mut ReadDecoder) -> Result<StaticTxResult, DecodeError> {
    let mut num_of_fields: u32 = match decoder_read_map_length(reader) {
        Ok(n) => n,
        Err(e) => {
            return Err(e);
        },
    };
    let mut result: String = String::new();
    let mut result_set: bool = false;
    let mut error: bool = false;
    let mut error_set: bool = false;
    while num_of_fields > 0
        decreases num_of_fields,
    {
        num_of_fields = num_of_fields - 1;
        let field: String = match decoder_read_string(reader) {
            Ok(f) => f,
            Err(e) => {
                return Err(e);
            },
        };
        if str_eq_str(field.as_str(), "result") {
            result = match decoder_read_string(reader) {
                Ok(v) => v,
                Err(e) => {
                    return Err(e);
                },
            };
            result_set = true;
        } else if str_eq_str(field.as_str(), "error") {
            error = match decoder_read_bool(reader) {
                Ok(v) => v,
                Err(e) => {
                    return Err(e);
                },
            };
            error_set = true;
        } else {
            return Err(unknown_field_error(field.as_str()));
        }
    }
    if !result_set {
        return Err(missing_field_error("result: String."));
    }
    if !error_set {
        return Err(missing_field_error("error: bool."));
    }
    Ok(StaticTxResult { result, error })
}

/// Deserializes a static call result from a whole buffer.
pub fn deserialize_static_tx_result(args: &[u8]) -> Result<StaticTxResult, DecodeError> {
    let mut reader: ReadDecoder = new_decoder(args);
    read_static_tx_result(&mut reader)
}

/// Reads transaction options: a map of optional fees, amounts and nonce.
pub fn read_tx_options(reader: &mut ReadDecoder) -> Result<TxOptions, DecodeError> {
    let mut num_of_fields: u32 = match decoder_read_map_length(reader) {
        Ok(n) => n,
        Err(e) => {
            return Err(e);
        },
    };
    let mut gas_limit: Option<String> = None;
    let mut max_fee_per_gas: Option<String> = None;
    let mut max_priority_fee_per_gas: Option<String> = None;
    let mut gas_price: Option<String> = None;
    let mut value: Option<String> = None;
    let mut nonce: Option<u32> = None;
    while num_of_fields > 0
        decreases num_of_fields,
    {
        num_of_fields = num_of_fields - 1;
        let field: String = match decoder_read_string(reader) {
            Ok(f) => f,
            Err(e) => {
                return Err(e);
            },
        };
        if str_eq_str(field.as_str(), "gasLimit") {
            gas_limit = match decoder_read_optional_bigint_text(reader) {
                Ok(v) => v,
                Err(e) => {
                    return Err(e);
                },
            };
        } else if str_eq_str(field.as_str(), "maxFeePerGas") {
            max_fee_per_gas = match decoder_read_optional_bigint_text(reader) {
                Ok(v) => v,
                Err(e) => {
                    return Err(e);
                },
            };
        } else if str_eq_str(field.as_str(), "maxPriorityFeePerGas") {
            max_priority_fee_per_gas = match decoder_read_optional_bigint_text(reader) {
                Ok(v) => v,
                Err(e) => {
                    return Err(e);
                },
            };
        } else if str_eq_str(field.as_str(), "gasPrice") {
            gas_price = match decoder_read_optional_bigint_text(reader) {
                Ok(v) => v,
                Err(e) => {
                    return Err(e);
                },
            };
        } else if str_eq_str(field.as_str(), "value") {
            value = match decoder_read_optional_bigint_text(reader) {
                Ok(v) => v,
                Err(e) => {
                    return Err(e);
                },
            };
        } else if str_eq_str(field.as_str(), "nonce") {
            nonce = match decoder_read_optional_u32(reader) {
                Ok(v) => v,
                Err(e) => {
                    return Err(e);
                },
            };
        } else {
            return Err(unknown_field_error(field.as_str()));
        }
    }
    Ok(
        TxOptions {
            gas_limit,
            max_fee_per_gas,
            max_priority_fee_per_gas,
            gas_price,
            value,
            nonce,
        },
    )
}

/// Deserializes transaction options from a whole buffer.
pub fn deserialize_tx_options(args: &[u8]) -> Result<TxOptions, DecodeError> {
    let mut reader: ReadDecoder = new_decoder(args);
    read_tx_options(&mut reader)
}

/// Reads optional transaction options: nil, or an options record.
fn read_optional_tx_options(reader: &mut ReadDecoder) -> Result<Option<TxOptions>, DecodeError> {
    let nil: bool = match decoder_is_next_nil(reader) {
        Ok(b) => b,
        Err(e) => {
            return Err(e);
        },
    };
    if nil {
        return Ok(None);
    }
    match read_tx_options(reader) {
        Ok(v) => Ok(Some(v)),
        Err(e) => Err(e),
    }
}

/// The shared field set of a contract call: an address and method, and
/// optional arguments, options and connection.
struct ContractCallFields {
    address: String,
    method: String,
    args: Option<Vec<String>>,
    options: Option<TxOptions>,
    connection: Option<ProviderConnection>,
}

/// Reads the argument map every contract-call operation shares: the
/// fields `address`, `method`, `args`, `options` and `connection`, the
/// first two required.
fn read_contract_call_args(args: &[u8]) -> Result<ContractCallFields, DecodeError> {
    let mut reader: ReadDecoder = new_decoder(args);
    let mut num_of_fields: u32 = match decoder_read_map_length(&mut reader) {
        Ok(n) => n,
        Err(e) => {
            return Err(e);
        },
    };
    let mut address: String = String::new();
    let mut address_set: bool = false;
    let mut method: String = String::new();
    let mut method_set: bool = false;
    let mut call_args: Option<Vec<String>> = None;
    let mut options: Option<TxOptions> = None;
    let mut connection: Option<ProviderConnection> = None;
    while num_of_fields > 0
        decreases num_of_fields,
    {
        num_of_fields = num_of_fields - 1;
        let field: String = match decoder_read_string(&mut reader) {
            Ok(f) => f,
            Err(e) => {
                return Err(e);
            },
        };
        if str_eq_str(field.as_str(), "address") {
            address = match decoder_read_string(&mut reader) {
                Ok(v) => v,
                Err(e) => {
                    return Err(e);
                },
            };
            address_set = true;
        } else if str_eq_str(field.as_str(), "method") {
            method = match decoder_read_string(&mut reader) {
                Ok(v) => v,
                Err(e) => {
                    return Err(e);
                },
            };
            method_set = true;
        } else if str_eq_str(field.as_str(), "args") {
            call_args = match read_optional_string_array(&mut reader) {
                Ok(v) => v,
                Err(e) => {
                    return Err(e);
                },
            };
        } else if str_eq_str(field.as_str(), "options") {
            options = match read_optional_tx_options(&mut reader) {
                Ok(v) => v,
                Err(e) => {
                    return Err(e);
                },
            };
        } else if str_eq_str(field.as_str(), "connection") {
            connection = match read_optional_connection(&mut reader) {
                Ok(v) => v,
                Err(e) => {
                    return Err(e);
                },
            };
        } else {
            return Err(unknown_field_error(field.as_str()));
        }
    }
    if !address_set {
        return Err(missing_field_error("address: String."));
    }
    if !method_set {
        return Err(missing_field_error("method: String."));
    }
    Ok(ContractCallFields { address, method, args: call_args, options, connection })
}

/// Deserializes the arguments of a static contract call.
pub fn deserialize_call_contract_static_args(args: &[u8]) -> Result<
    ArgsCallContractStatic,
    DecodeError,
> {
    match read_contract_call_args(args) {
        Ok(f) => Ok(
            ArgsCallContractStatic {
                address: f.address,
                method: f.method,
                args: f.args,
                options: f.options,
                connection: f.connection,
            },
        ),
        Err(e) => Err(e),
    }
}

/// Serializes the static contract call result.
pub fn serialize_call_contract_static_result(result: &StaticTxResult) -> (r: Result<
    Vec<u8>,
    EncodeError,
>)
    ensures
        r matches Ok(b) ==> b@ == static_tx_result_bytes(*result),
        r is Ok,
{
    serialize_static_tx_result(result)
}

/// Deserializes the arguments of estimating a contract call's gas.
pub fn deserialize_estimate_contract_call_gas_args(args: &[u8]) -> Result<
    ArgsEstimateContractCallGas,
    DecodeError,
> {
    match read_contract_call_args(args) {
        Ok(f) => Ok(
            ArgsEstimateContractCallGas {
                address: f.address,
                method: f.method,
                args: f.args,
                options: f.options,
                connection: f.connection,
            },
        ),
        Err(e) => Err(e),
    }
}

/// Serializes the gas estimate result: one big integer, in decimal.
pub fn serialize_estimate_contract_call_gas_result(result: &String) -> (r: Result<
    Vec<u8>,
    EncodeError,
>)
    ensures
        r matches Ok(b) ==> b@ == msgpack_str_bytes(result@),
        r is Ok,
{
    serialize_string_result(result)
}

/// Deserializes the arguments of a state-changing contract call.
pub fn deserialize_call_contract_method_args(args: &[u8]) -> Result<
    ArgsCallContractMethod,
    DecodeError,
> {
    match read_contract_call_args(args) {
        Ok(f) => Ok(
            ArgsCallContractMethod {
                address: f.address,
                method: f.method,
                args: f.args,
                options: f.options,
                connection: f.connection,
            },
        ),
        Err(e) => Err(e),
    }
}

/// Deserializes the arguments of a state-changing contract call that
/// waits for its receipt.
pub fn deserialize_call_contract_method_and_wait_args(args: &[u8]) -> Result<
    ArgsCallContractMethodAndWait,
    DecodeError,
> {
    match read_contract_call_args(args) {
        Ok(f) => Ok(
            ArgsCallContractMethodAndWait {
                address: f.address,
                method: f.method,
                args: f.args,
                options: f.options,
                connection: f.connection,
            },
        ),
        Err(e) => Err(e),
    }
}

/// Deserializes the arguments of a contract deployment: a map with the
/// fields `abi`, `bytecode`, `args`, `options` and `connection`, the
/// first two required.
pub fn deserialize_deploy_contract_args(args: &[u8]) -> Result<ArgsDeployContract, DecodeError> {
    let mut reader: ReadDecoder = new_decoder(args);
    let mut num_of_fields: u32 = match decoder_read_map_length(&mut reader) {
        Ok(n) => n,
        Err(e) => {
            return Err(e);
        },
    };
    let mut abi: String = String::new();
    let mut abi_set: bool = false;
    let mut bytecode: String = String::new();
    let mut bytecode_set: bool = false;
    let mut call_args: Option<Vec<String>> = None;
    let mut options: Option<TxOptions> = None;
    let mut connection: Option<ProviderConnection> = None;
    while num_of_fields > 0
        decreases num_of_fields,
    {
        num_of_fields = num_of_fields - 1;
        let field: String = match decoder_read_string(&mut reader) {
            Ok(f) => f,
            Err(e) => {
                return Err(e);
            },
        };
        if str_eq_str(field.as_str(), "abi") {
            abi = match decoder_read_string(&mut reader) {
                Ok(v) => v,
                Err(e) => {
                    return Err(e);
                },
            };
            abi_set = true;
        } else if str_eq_str(field.as_str(), "bytecode") {
            bytecode = match decoder_read_string(&mut reader) {
                Ok(v) => v,
                Err(e) => {
                    return Err(e);
                },
            };
            bytecode_set = true;
        } else if str_eq_str(field.as_str(), "args") {
            call_args = match read_optional_string_array(&mut reader) {
                Ok(v) => v,
                Err(e) => {
                    return Err(e);
                },
            };
        } else if str_eq_str(field.as_str(), "options") {
            options = match read_optional_tx_options(&mut reader) {
                Ok(v) => v,
                Err(e) => {
                    return Err(e);
                },
            };
        } else if str_eq_str(field.as_str(), "connection") {
            connection = match read_optional_connection(&mut reader) {
                Ok(v) => v,
                Err(e) => {
                    return Err(e);
                },
            };
        } else {
            return Err(unknown_field_error(field.as_str()));
        }
    }
    if !abi_set {
        return Err(missing_field_error("abi: String."));
    }
    if !bytecode_set {
        return Err(missing_field_error("bytecode: String."));
    }
    Ok(ArgsDeployContract { abi, bytecode, args: call_args, options, connection })
}

/// Serializes the deployment result: the new contract's address.
pub fn serialize_deploy_contract_result(result: &String) -> (r: Result<Vec<u8>, EncodeError>)
    ensures
        r matches Ok(b) ==> b@ == msgpack_str_bytes(result@),
        r is Ok,
{
    serialize_string_result(result)
}

/// Reads an optional array of access list entries.
fn read_optional_access_items(reader: &mut ReadDecoder) -> Result<
    Option<Vec<AccessItem>>,
    DecodeError,
> {
    let nil: bool = match decoder_is_next_nil(reader) {
        Ok(b) => b,
        Err(e) => {
            return Err(e);
        },
    };
    if nil {
        return Ok(None);
    }
    let n: u32 = match crate::msgpack::decoder_read_array_length(reader) {
        Ok(n) => n,
        Err(e) => {
            return Err(e);
        },
    };
    let mut out: Vec<AccessItem> = Vec::new();
    let mut i: u32 = 0;
    while i < n
        decreases n - i,
    {
        let item: AccessItem = match read_access_item(reader) {
            Ok(v) => v,
            Err(e) => {
                return Err(e);
            },
        };
        out.push(item);
        i = i + 1;
    }
    Ok(Some(out))
}

/// Reads a transaction request: a map of the optional addresses, data,
/// amounts, access list and nonce.
pub fn read_tx_request(reader: &mut ReadDecoder) -> Result<TxRequest, DecodeError> {
    let mut num_of_fields: u32 = match decoder_read_map_length(reader) {
        Ok(n) => n,
        Err(e) => {
            return Err(e);
        },
    };
    let mut request: TxRequest = TxRequest::new();
    while num_of_fields > 0
        decreases num_of_fields,
    {
        num_of_fields = num_of_fields - 1;
        let field: String = match decoder_read_string(reader) {
            Ok(f) => f,
            Err(e) => {
                return Err(e);
            },
        };
        if str_eq_str(field.as_str(), "to") {
            request.to = match decoder_read_optional_string(reader) {
                Ok(v) => v,
                Err(e) => {
                    return Err(e);
                },
            };
        } else if str_eq_str(field.as_str(), "from") {
            request.from = match decoder_read_optional_string(reader) {
                Ok(v) => v,
                Err(e) => {
                    return Err(e);
                },
            };
        } else if str_eq_str(field.as_str(), "data") {
            request.data = match decoder_read_optional_string(reader) {
                Ok(v) => v,
                Err(e) => {
                    return Err(e);
                },
            };
        } else if str_eq_str(field.as_str(), "type") {
            request._type = match decoder_read_optional_u32(reader) {
                Ok(v) => v,
                Err(e) => {
                    return Err(e);
                },
            };
        } else if str_eq_str(field.as_str(), "chainId") {
            request.chain_id = match decoder_read_optional_bigint_text(reader) {
                Ok(v) => v,
                Err(e) => {
                    return Err(e);
                },
            };
        } else if str_eq_str(field.as_str(), "accessList") {
            request.access_list = match read_optional_access_items(reader) {
                Ok(v) => v,
                Err(e) => {
                    return Err(e);
                },
            };
        } else if str_eq_str(field.as_str(), "gasLimit") {
            request.gas_limit = match decoder_read_optional_bigint_text(reader) {
                Ok(v) => v,
                Err(e) => {
                    return Err(e);
                },
            };
        } else if str_eq_str(field.as_str(), "maxFeePerGas") {
            request.max_fee_per_gas = match decoder_read_optional_bigint_text(reader) {
                Ok(v) => v,
                Err(e) => {
                    return Err(e);
                },
            };
        } else if str_eq_str(field.as_str(), "maxPriorityFeePerGas") {
            request.max_priority_fee_per_gas = match decoder_read_optional_bigint_text(reader) {
                Ok(v) => v,
                Err(e) => {
                    return Err(e);
                },
            };
        } else if str_eq_str(field.as_str(), "gasPrice") {
            request.gas_price = match decoder_read_optional_bigint_text(reader) {
                Ok(v) => v,
                Err(e) => {
                    return Err(e);
                },
            };
        } else if str_eq_str(field.as_str(), "value") {
            request.value = match decoder_read_optional_bigint_text(reader) {
                Ok(v) => v,
                Err(e) => {
                    return Err(e);
                },
            };
        } else if str_eq_str(field.as_str(), "nonce") {
            request.nonce = match decoder_read_optional_u32(reader) {
                Ok(v) => v,
                Err(e) => {
                    return Err(e);
                },
            };
        } else {
            return Err(unknown_field_error(field.as_str()));
        }
    }
    Ok(request)
}

/// Deserializes a transaction request from a whole buffer.
pub fn deserialize_tx_request(args: &[u8]) -> Result<TxRequest, DecodeError> {
    let mut reader: ReadDecoder = new_decoder(args);
    read_tx_request(&mut reader)
}

/// The shared field set of a transaction operation: the request and the
/// connection.
struct TxCallFields {
    tx: TxRequest,
    connection: Option<ProviderConnection>,
}

/// Reads the argument map every transaction operation shares: the
/// required field `tx` and the optional `connection`.
fn read_tx_call_args(args: &[u8]) -> Result<TxCallFields, DecodeError> {
    let mut reader: ReadDecoder = new_decoder(args);
    let mut num_of_fields: u32 = match decoder_read_map_length(&mut reader) {
        Ok(n) => n,
        Err(e) => {
            return Err(e);
        },
    };
    let mut tx: TxRequest = TxRequest::new();
    let mut tx_set: bool = false;
    let mut connection: Option<ProviderConnection> = None;
    while num_of_fields > 0
        decreases num_of_fields,
    {
        num_of_fields = num_of_fields - 1;
        let field: String = match decoder_read_string(&mut reader) {
            Ok(f) => f,
            Err(e) => {
                return Err(e);
            },
        };
        if str_eq_str(field.as_str(), "tx") {
            tx = match read_tx_request(&mut reader) {
                Ok(v) => v,
                Err(e) => {
                    return Err(e);
                },
            };
            tx_set = true;
        } else if str_eq_str(field.as_str(), "connection") {
            connection = match read_optional_connection(&mut reader) {
                Ok(v) => v,
                Err(e) => {
                    return Err(e);
                },
            };
        } else {
            return Err(unknown_field_error(field.as_str()));
        }
    }
    if !tx_set {
        return Err(missing_field_error("tx: TxRequest."));
    }
    Ok(TxCallFields { tx, connection })
}

/// Deserializes the arguments of estimating a transaction's gas.
pub fn deserialize_estimate_transaction_gas_args(args: &[u8]) -> Result<
    ArgsEstimateTransactionGas,
    DecodeError,
> {
    match read_tx_call_args(args) {
        Ok(f) => Ok(ArgsEstimateTransactionGas { tx: f.tx, connection: f.connection }),
        Err(e) => Err(e),
    }
}

/// Serializes the transaction gas estimate: one big integer, in decimal.
pub fn serialize_estimate_transaction_gas_result(result: &String) -> (r: Result<
    Vec<u8>,
    EncodeError,
>)
    ensures
        r matches Ok(b) ==> b@ == msgpack_str_bytes(result@),
        r is Ok,
{
    serialize_string_result(result)
}

/// Deserializes the arguments of sending a transaction.
pub fn deserialize_send_transaction_args(args: &[u8]) -> Result<ArgsSendTransaction, DecodeError> {
    match read_tx_call_args(args) {
        Ok(f) => Ok(ArgsSendTransaction { tx: f.tx, connection: f.connection }),
        Err(e) => Err(e),
    }
}

/// Deserializes the arguments of sending a transaction and waiting.
pub fn deserialize_send_transaction_and_wait_args(args: &[u8]) -> Result<
    ArgsSendTransactionAndWait,
    DecodeError,
> {
    match read_tx_call_args(args) {
        Ok(f) => Ok(ArgsSendTransactionAndWait { tx: f.tx, connection: f.connection }),
        Err(e) => Err(e),
    }
}

/// Deserializes the arguments of waiting for a transaction: a map with
/// the required field `txHash` and the optional `connection`.
pub fn deserialize_await_transaction_args(args: &[u8]) -> Result<ArgsAwaitTransaction, DecodeError> {
    let mut reader: ReadDecoder = new_decoder(args);
    let mut num_of_fields: u32 = match decoder_read_map_length(&mut reader) {
        Ok(n) => n,
        Err(e) => {
            return Err(e);
        },
    };
    let mut tx_hash: String = String::new();
    let mut tx_hash_set: bool = false;
    let mut connection: Option<ProviderConnection> = None;
    while num_of_fields > 0
        decreases num_of_fields,
    {
        num_of_fields = num_of_fields - 1;
        let field: String = match decoder_read_string(&mut reader) {
            Ok(f) => f,
            Err(e) => {
                return Err(e);
            },
        };
        if str_eq_str(field.as_str(), "txHash") {
            tx_hash = match decoder_read_string(&mut reader) {
                Ok(v) => v,
                Err(e) => {
                    return Err(e);
                },
            };
            tx_hash_set = true;
        } else if str_eq_str(field.as_str(), "connection") {
            connection = match read_optional_connection(&mut reader) {
                Ok(v) => v,
                Err(e) => {
                    return Err(e);
                },
            };
        } else {
            return Err(unknown_field_error(field.as_str()));
        }
    }
    if !tx_hash_set {
        return Err(missing_field_error("txHash: String."));
    }
    Ok(ArgsAwaitTransaction { tx_hash, connection })
}

/// The wire spelling of a string array field value: the array header,
/// then each string.
pub open spec fn str_array_field_bytes(v: Seq<Seq<char>>) -> Seq<u8> {
    crate::msgpack::msgpack_array_len_bytes(v.len() as u32) + msgpack_str_array_bytes(v)
}

/// Writes an array of strings: the header, then each string.
fn write_string_array(items: &Vec<String>, writer: &mut WriteEncoder)
    ensures
        encoder_bytes(*final(writer)) == encoder_bytes(*old(writer)) + str_array_field_bytes(
            items.deep_view(),
        ),
{
    let n: usize = items.len();
    crate::msgpack::encoder_write_array_length(writer, n as u32);
    let ghost base: Seq<u8> = encoder_bytes(*writer);
    let mut i: usize = 0;
    proof {
        assert(items.deep_view().take(0) =~= Seq::<Seq<char>>::empty());
        assert(base + Seq::<u8>::empty() =~= base);
    }
    while i < n
        invariant
            n == items@.len(),
            items.deep_view().len() == n,
            encoder_bytes(*writer) =~= base + msgpack_str_array_bytes(
                items.deep_view().take(i as int),
            ),
            i <= n,
        decreases n - i,
    {
        proof {
            assert(items@[i as int]@ == items.deep_view()[i as int]);
        }
        encoder_write_string(writer, items[i].as_str());
        proof {
            let dv = items.deep_view();
            assert(dv.take(i + 1 as int) =~= dv.take(i as int).push(dv[i as int]));
            lemma_msgpack_str_array_push(dv.take(i as int), dv[i as int]);
        }
        i = i + 1;
    }
    proof {
        assert(items.deep_view().take(n as int) =~= items.deep_view());
        assert((items.deep_view().len() as u32) == (n as u32));
    }
}

/// Concatenation reassociates.
pub proof fn lemma_concat_assoc(a: Seq<u8>, b: Seq<u8>, c: Seq<u8>)
    ensures
        (a + b) + c =~= a + (b + c),
{
}

/// The wire spelling of an event log: a nine-pair map.
pub open spec fn log_bytes(l: Log) -> Seq<u8> {
    msgpack_map_len_bytes(9) + msgpack_str_bytes("blockNumber"@) + msgpack_str_bytes(
        l.block_number@,
    ) + msgpack_str_bytes("blockHash"@) + msgpack_str_bytes(l.block_hash@) + msgpack_str_bytes(
        "transactionIndex"@,
    ) + msgpack_uint_bytes(l.transaction_index) + msgpack_str_bytes("removed"@)
        + msgpack_bool_bytes(l.removed) + msgpack_str_bytes("address"@) + msgpack_str_bytes(
        l.address@,
    ) + msgpack_str_bytes("data"@) + msgpack_str_bytes(l.data@) + msgpack_str_bytes("topics"@)
        + str_array_field_bytes(l.topics.deep_view()) + msgpack_str_bytes("transactionHash"@)
        + msgpack_str_bytes(l.transaction_hash@) + msgpack_str_bytes("logIndex"@)
        + msgpack_uint_bytes(l.log_index)
}

/// Writes an event log.
pub fn write_log(args: &Log, writer: &mut WriteEncoder)
    ensures
        encoder_bytes(*final(writer)) == encoder_bytes(*old(writer)) + log_bytes(*args),
{
    let ghost pre: Seq<u8> = encoder_bytes(*writer);
    encoder_write_map_length(writer, 9);
    let ghost mut chain: Seq<u8> = msgpack_map_len_bytes(9);
    encoder_write_string(writer, "blockNumber");
    proof {
        lemma_concat_assoc(pre, chain, msgpack_str_bytes("blockNumber"@));
        chain = chain + msgpack_str_bytes("blockNumber"@);
        assert(encoder_bytes(*writer) == pre + chain);
    }
    encoder_write_string(writer, args.block_number.as_str());
    proof {
        lemma_concat_assoc(pre, chain, msgpack_str_bytes(args.block_number@));
        chain = chain + msgpack_str_bytes(args.block_number@);
        assert(encoder_bytes(*writer) == pre + chain);
    }
    encoder_write_string(writer, "blockHash");
    proof {
        lemma_concat_assoc(pre, chain, msgpack_str_bytes("blockHash"@));
        chain = chain + msgpack_str_bytes("blockHash"@);
        assert(encoder_bytes(*writer) == pre + chain);
    }
    encoder_write_string(writer, args.block_hash.as_str());
    proof {
        lemma_concat_assoc(pre, chain, msgpack_str_bytes(args.block_hash@));
        chain = chain + msgpack_str_bytes(args.block_hash@);
        assert(encoder_bytes(*writer) == pre + chain);
    }
    encoder_write_string(writer, "transactionIndex");
    proof {
        lemma_concat_assoc(pre, chain, msgpack_str_bytes("transactionIndex"@));
        chain = chain + msgpack_str_bytes("transactionIndex"@);
        assert(encoder_bytes(*writer) == pre + chain);
    }
    encoder_write_u32(writer, args.transaction_index);
    proof {
        lemma_concat_assoc(pre, chain, msgpack_uint_bytes(args.transaction_index));
        chain = chain + msgpack_uint_bytes(args.transaction_index);
        assert(encoder_bytes(*writer) == pre + chain);
    }
    encoder_write_string(writer, "removed");
    proof {
        lemma_concat_assoc(pre, chain, msgpack_str_bytes("removed"@));
        chain = chain + msgpack_str_bytes("removed"@);
        assert(encoder_bytes(*writer) == pre + chain);
    }
    encoder_write_bool(writer, args.removed);
    proof {
        lemma_concat_assoc(pre, chain, msgpack_bool_bytes(args.removed));
        chain = chain + msgpack_bool_bytes(args.removed);
        assert(encoder_bytes(*writer) == pre + chain);
    }
    encoder_write_string(writer, "address");
    proof {
        lemma_concat_assoc(pre, chain, msgpack_str_bytes("address"@));
        chain = chain + msgpack_str_bytes("address"@);
        assert(encoder_bytes(*writer) == pre + chain);
    }
    encoder_write_string(writer, args.address.as_str());
    proof {
        lemma_concat_assoc(pre, chain, msgpack_str_bytes(args.address@));
        chain = chain + msgpack_str_bytes(args.address@);
        assert(encoder_bytes(*writer) == pre + chain);
    }
    encoder_write_string(writer, "data");
    proof {
        lemma_concat_assoc(pre, chain, msgpack_str_bytes("data"@));
        chain = chain + msgpack_str_bytes("data"@);
        assert(encoder_bytes(*writer) == pre + chain);
    }
    encoder_write_string(writer, args.data.as_str());
    proof {
        lemma_concat_assoc(pre, chain, msgpack_str_bytes(args.data@));
        chain = chain + msgpack_str_bytes(args.data@);
        assert(encoder_bytes(*writer) == pre + chain);
    }
    encoder_write_string(writer, "topics");
    proof {
        lemma_concat_assoc(pre, chain, msgpack_str_bytes("topics"@));
        chain = chain + msgpack_str_bytes("topics"@);
        assert(encoder_bytes(*writer) == pre + chain);
    }
    write_string_array(&args.topics, writer);
    proof {
        lemma_concat_assoc(pre, chain, str_array_field_bytes(args.topics.deep_view()));
        chain = chain + str_array_field_bytes(args.topics.deep_view());
        assert(encoder_bytes(*writer) == pre + chain);
    }
    encoder_write_string(writer, "transactionHash");
    proof {
        lemma_concat_assoc(pre, chain, msgpack_str_bytes("transactionHash"@));
        chain = chain + msgpack_str_bytes("transactionHash"@);
        assert(encoder_bytes(*writer) == pre + chain);
    }
    encoder_write_string(writer, args.transaction_hash.as_str());
    proof {
        lemma_concat_assoc(pre, chain, msgpack_str_bytes(args.transaction_hash@));
        chain = chain + msgpack_str_bytes(args.transaction_hash@);
        assert(encoder_bytes(*writer) == pre + chain);
    }
    encoder_write_string(writer, "logIndex");
    proof {
        lemma_concat_assoc(pre, chain, msgpack_str_bytes("logIndex"@));
        chain = chain + msgpack_str_bytes("logIndex"@);
        assert(encoder_bytes(*writer) == pre + chain);
    }
    encoder_write_u32(writer, args.log_index);
    proof {
        lemma_concat_assoc(pre, chain, msgpack_uint_bytes(args.log_index));
        chain = chain + msgpack_uint_bytes(args.log_index);
        assert(encoder_bytes(*writer) == pre + chain);
        assert(chain == log_bytes(*args));
    }
}

/// Serializes an event log into a fresh buffer.
pub fn serialize_log(args: &Log) -> (r: Result<Vec<u8>, EncodeError>)
    ensures
        r matches Ok(b) ==> b@ == log_bytes(*args),
        r is Ok,
{
    let mut encoder: WriteEncoder = new_encoder();
    write_log(args, &mut encoder);
    proof {
        assert(Seq::<u8>::empty() + log_bytes(*args) =~= log_bytes(*args));
    }
    Ok(encoder_buffer(&encoder))
}

/// The wire spelling of a sequence of event logs, in order.
pub open spec fn log_array_bytes(ls: Seq<Log>) -> Seq<u8>
    decreases ls.len(),
{
    if ls.len() == 0 {
        Seq::empty()
    } else {
        log_bytes(ls[0]) + log_array_bytes(ls.drop_first())
    }
}

pub proof fn lemma_log_array_push(ls: Seq<Log>, x: Log)
    ensures
        log_array_bytes(ls.push(x)) =~= log_array_bytes(ls) + log_bytes(x),
    decreases ls.len(),
{
    reveal_with_fuel(log_array_bytes, 3);
    if ls.len() == 0 {
        assert(ls.push(x).drop_first() =~= Seq::<Log>::empty());
        assert(ls.push(x)[0] == x);
        assert(log_bytes(x) + Seq::<u8>::empty() =~= log_bytes(x));
    } else {
        assert(ls.push(x).drop_first() =~= ls.drop_first().push(x));
        lemma_log_array_push(ls.drop_first(), x);
        assert(ls.push(x)[0] == ls[0]);
        assert(log_bytes(ls[0]) + (log_array_bytes(ls.drop_first()) + log_bytes(x)) =~= (log_bytes(
            ls[0],
        ) + log_array_bytes(ls.drop_first())) + log_bytes(x));
    }
}

/// The wire spelling of a transaction receipt: a sixteen-pair map.
pub open spec fn tx_receipt_bytes(r: TxReceipt) -> Seq<u8> {
    msgpack_map_len_bytes(16) + msgpack_str_bytes("to"@) + msgpack_str_bytes(r.to@)
        + msgpack_str_bytes("from"@) + msgpack_str_bytes(r.from@) + msgpack_str_bytes(
        "contractAddress"@,
    ) + msgpack_str_bytes(r.contract_address@) + msgpack_str_bytes("transactionIndex"@)
        + msgpack_uint_bytes(r.transaction_index) + msgpack_str_bytes("root"@)
        + msgpack_opt_str_bytes(opt_view(r.root)) + msgpack_str_bytes("gasUsed"@)
        + msgpack_str_bytes(r.gas_used@) + msgpack_str_bytes("logsBloom"@) + msgpack_str_bytes(
        r.logs_bloom@,
    ) + msgpack_str_bytes("transactionHash"@) + msgpack_str_bytes(r.transaction_hash@)
        + msgpack_str_bytes("logs"@) + crate::msgpack::msgpack_array_len_bytes(
        r.logs@.len() as u32,
    ) + log_array_bytes(r.logs@) + msgpack_str_bytes("blockNumber"@) + msgpack_str_bytes(
        r.block_number@,
    ) + msgpack_str_bytes("blockHash"@) + msgpack_str_bytes(r.block_hash@) + msgpack_str_bytes(
        "confirmations"@,
    ) + msgpack_uint_bytes(r.confirmations) + msgpack_str_bytes("cumulativeGasUsed"@)
        + msgpack_str_bytes(r.cumulative_gas_used@) + msgpack_str_bytes("effectiveGasPrice"@)
        + msgpack_str_bytes(r.effective_gas_price@) + msgpack_str_bytes("type"@)
        + msgpack_uint_bytes(r._type) + msgpack_str_bytes("status"@) + msgpack_opt_uint_bytes(
        r.status,
    )
}

/// Writes a transaction receipt.
pub fn write_tx_receipt(args: &TxReceipt, writer: &mut WriteEncoder)
    ensures
        encoder_bytes(*final(writer)) == encoder_bytes(*old(writer)) + tx_receipt_bytes(*args),
{
    let ghost pre: Seq<u8> = encoder_bytes(*writer);
    encoder_write_map_length(writer, 16);
    let ghost mut chain: Seq<u8> = msgpack_map_len_bytes(16);
    encoder_write_string(writer, "to");
    proof {
        lemma_concat_assoc(pre, chain, msgpack_str_bytes("to"@));
        chain = chain + msgpack_str_bytes("to"@);
        assert(encoder_bytes(*writer) == pre + chain);
    }
    encoder_write_string(writer, args.to.as_str());
    proof {
        lemma_concat_assoc(pre, chain, msgpack_str_bytes(args.to@));
        chain = chain + msgpack_str_bytes(args.to@);
        assert(encoder_bytes(*writer) == pre + chain);
    }
    encoder_write_string(writer, "from");
    proof {
        lemma_concat_assoc(pre, chain, msgpack_str_bytes("from"@));
        chain = chain + msgpack_str_bytes("from"@);
        assert(encoder_bytes(*writer) == pre + chain);
    }
    encoder_write_string(writer, args.from.as_str());
    proof {
        lemma_concat_assoc(pre, chain, msgpack_str_bytes(args.from@));
        chain = chain + msgpack_str_bytes(args.from@);
        assert(encoder_bytes(*writer) == pre + chain);
    }
    encoder_write_string(writer, "contractAddress");
    proof {
        lemma_concat_assoc(pre, chain, msgpack_str_bytes("contractAddress"@));
        chain = chain + msgpack_str_bytes("contractAddress"@);
        assert(encoder_bytes(*writer) == pre + chain);
    }
    encoder_write_string(writer, args.contract_address.as_str());
    proof {
        lemma_concat_assoc(pre, chain, msgpack_str_bytes(args.contract_address@));
        chain = chain + msgpack_str_bytes(args.contract_address@);
        assert(encoder_bytes(*writer) == pre + chain);
    }
    encoder_write_string(writer, "transactionIndex");
    proof {
        lemma_concat_assoc(pre, chain, msgpack_str_bytes("transactionIndex"@));
        chain = chain + msgpack_str_bytes("transactionIndex"@);
        assert(encoder_bytes(*writer) == pre + chain);
    }
    encoder_write_u32(writer, args.transaction_index);
    proof {
        lemma_concat_assoc(pre, chain, msgpack_uint_bytes(args.transaction_index));
        chain = chain + msgpack_uint_bytes(args.transaction_index);
        assert(encoder_bytes(*writer) == pre + chain);
    }
    encoder_write_string(writer, "root");
    proof {
        lemma_concat_assoc(pre, chain, msgpack_str_bytes("root"@));
        chain = chain + msgpack_str_bytes("root"@);
        assert(encoder_bytes(*writer) == pre + chain);
    }
    encoder_write_optional_string(writer, &args.root);
    proof {
        lemma_concat_assoc(pre, chain, msgpack_opt_str_bytes(opt_view(args.root)));
        chain = chain + msgpack_opt_str_bytes(opt_view(args.root));
        assert(encoder_bytes(*writer) == pre + chain);
    }
    encoder_write_string(writer, "gasUsed");
    proof {
        lemma_concat_assoc(pre, chain, msgpack_str_bytes("gasUsed"@));
        chain = chain + msgpack_str_bytes("gasUsed"@);
        assert(encoder_bytes(*writer) == pre + chain);
    }
    encoder_write_string(writer, args.gas_used.as_str());
    proof {
        lemma_concat_assoc(pre, chain, msgpack_str_bytes(args.gas_used@));
        chain = chain + msgpack_str_bytes(args.gas_used@);
        assert(encoder_bytes(*writer) == pre + chain);
    }
    encoder_write_string(writer, "logsBloom");
    proof {
        lemma_concat_assoc(pre, chain, msgpack_str_bytes("logsBloom"@));
        chain = chain + msgpack_str_bytes("logsBloom"@);
        assert(encoder_bytes(*writer) == pre + chain);
    }
    encoder_write_string(writer, args.logs_bloom.as_str());
    proof {
        lemma_concat_assoc(pre, chain, msgpack_str_bytes(args.logs_bloom@));
        chain = chain + msgpack_str_bytes(args.logs_bloom@);
        assert(encoder_bytes(*writer) == pre + chain);
    }
    encoder_write_string(writer, "transactionHash");
    proof {
        lemma_concat_assoc(pre, chain, msgpack_str_bytes("transactionHash"@));
        chain = chain + msgpack_str_bytes("transactionHash"@);
        assert(encoder_bytes(*writer) == pre + chain);
    }
    encoder_write_string(writer, args.transaction_hash.as_str());
    proof {
        lemma_concat_assoc(pre, chain, msgpack_str_bytes(args.transaction_hash@));
        chain = chain + msgpack_str_bytes(args.transaction_hash@);
        assert(encoder_bytes(*writer) == pre + chain);
    }
    encoder_write_string(writer, "logs");
    proof {
        lemma_concat_assoc(pre, chain, msgpack_str_bytes("logs"@));
        chain = chain + msgpack_str_bytes("logs"@);
        assert(encoder_bytes(*writer) == pre + chain);
    }
    let n: usize = args.logs.len();
    crate::msgpack::encoder_write_array_length(writer, n as u32);
    proof {
        lemma_concat_assoc(
            pre,
            chain,
            crate::msgpack::msgpack_array_len_bytes(args.logs@.len() as u32),
        );
        chain = chain + crate::msgpack::msgpack_array_len_bytes(args.logs@.len() as u32);
        assert(encoder_bytes(*writer) == pre + chain);
    }
    let mut i: usize = 0;
    proof {
        assert(args.logs@.take(0) =~= Seq::<Log>::empty());
        assert(chain + Seq::<u8>::empty() =~= chain);
        assert(encoder_bytes(*writer) == pre + chain);
        lemma_concat_assoc(pre, chain, log_array_bytes(args.logs@.take(0)));
    }
    while i < n
        invariant
            n == args.logs@.len(),
            encoder_bytes(*writer) =~= pre + (chain + log_array_bytes(args.logs@.take(i as int))),
            i <= n,
        decreases n - i,
    {
        let ghost enc_prev: Seq<u8> = encoder_bytes(*writer);
        write_log(&args.logs[i], writer);
        proof {
            let ls = args.logs@;
            let la = log_array_bytes(ls.take(i as int));
            let x = log_bytes(ls[i as int]);
            assert(encoder_bytes(*writer) == (pre + (chain + la)) + x);
            lemma_concat_assoc(pre, chain + la, x);
            lemma_concat_assoc(chain, la, x);
            assert(ls.take(i + 1 as int) =~= ls.take(i as int).push(ls[i as int]));
            lemma_log_array_push(ls.take(i as int), ls[i as int]);
            assert(encoder_bytes(*writer) =~= pre + (chain + log_array_bytes(
                ls.take(i + 1 as int),
            )));
        }
        i = i + 1;
    }
    proof {
        assert(args.logs@.take(n as int) =~= args.logs@);
        chain = chain + log_array_bytes(args.logs@);
        assert(encoder_bytes(*writer) == pre + chain);
    }
    encoder_write_string(writer, "blockNumber");
    proof {
        lemma_concat_assoc(pre, chain, msgpack_str_bytes("blockNumber"@));
        chain = chain + msgpack_str_bytes("blockNumber"@);
        assert(encoder_bytes(*writer) == pre + chain);
    }
    encoder_write_string(writer, args.block_number.as_str());
    proof {
        lemma_concat_assoc(pre, chain, msgpack_str_bytes(args.block_number@));
        chain = chain + msgpack_str_bytes(args.block_number@);
        assert(encoder_bytes(*writer) == pre + chain);
    }
    encoder_write_string(writer, "blockHash");
    proof {
        lemma_concat_assoc(pre, chain, msgpack_str_bytes("blockHash"@));
        chain = chain + msgpack_str_bytes("blockHash"@);
        assert(encoder_bytes(*writer) == pre + chain);
    }
    encoder_write_string(writer, args.block_hash.as_str());
    proof {
        lemma_concat_assoc(pre, chain, msgpack_str_bytes(args.block_hash@));
        chain = chain + msgpack_str_bytes(args.block_hash@);
        assert(encoder_bytes(*writer) == pre + chain);
    }
    encoder_write_string(writer, "confirmations");
    proof {
        lemma_concat_assoc(pre, chain, msgpack_str_bytes("confirmations"@));
        chain = chain + msgpack_str_bytes("confirmations"@);
        assert(encoder_bytes(*writer) == pre + chain);
    }
    encoder_write_u32(writer, args.confirmations);
    proof {
        lemma_concat_assoc(pre, chain, msgpack_uint_bytes(args.confirmations));
        chain = chain + msgpack_uint_bytes(args.confirmations);
        assert(encoder_bytes(*writer) == pre + chain);
    }
    encoder_write_string(writer, "cumulativeGasUsed");
    proof {
        lemma_concat_assoc(pre, chain, msgpack_str_bytes("cumulativeGasUsed"@));
        chain = chain + msgpack_str_bytes("cumulativeGasUsed"@);
        assert(encoder_bytes(*writer) == pre + chain);
    }
    encoder_write_string(writer, args.cumulative_gas_used.as_str());
    proof {
        lemma_concat_assoc(pre, chain, msgpack_str_bytes(args.cumulative_gas_used@));
        chain = chain + msgpack_str_bytes(args.cumulative_gas_used@);
        assert(encoder_bytes(*writer) == pre + chain);
    }
    encoder_write_string(writer, "effectiveGasPrice");
    proof {
        lemma_concat_assoc(pre, chain, msgpack_str_bytes("effectiveGasPrice"@));
        chain = chain + msgpack_str_bytes("effectiveGasPrice"@);
        assert(encoder_bytes(*writer) == pre + chain);
    }
    encoder_write_string(writer, args.effective_gas_price.as_str());
    proof {
        lemma_concat_assoc(pre, chain, msgpack_str_bytes(args.effective_gas_price@));
        chain = chain + msgpack_str_bytes(args.effective_gas_price@);
        assert(encoder_bytes(*writer) == pre + chain);
    }
    encoder_write_string(writer, "type");
    proof {
        lemma_concat_assoc(pre, chain, msgpack_str_bytes("type"@));
        chain = chain + msgpack_str_bytes("type"@);
        assert(encoder_bytes(*writer) == pre + chain);
    }
    encoder_write_u32(writer, args._type);
    proof {
        lemma_concat_assoc(pre, chain, msgpack_uint_bytes(args._type));
        chain = chain + msgpack_uint_bytes(args._type);
        assert(encoder_bytes(*writer) == pre + chain);
    }
    encoder_write_string(writer, "status");
    proof {
        lemma_concat_assoc(pre, chain, msgpack_str_bytes("status"@));
        chain = chain + msgpack_str_bytes("status"@);
        assert(encoder_bytes(*writer) == pre + chain);
    }
    encoder_write_optional_u32(writer, &args.status);
    proof {
        lemma_concat_assoc(pre, chain, msgpack_opt_uint_bytes(args.status));
        chain = chain + msgpack_opt_uint_bytes(args.status);
        assert(encoder_bytes(*writer) == pre + chain);
        assert(chain == tx_receipt_bytes(*args));
    }
}

/// Serializes a transaction receipt into a fresh buffer.
pub fn serialize_tx_receipt(args: &TxReceipt) -> (r: Result<Vec<u8>, EncodeError>)
    ensures
        r matches Ok(b) ==> b@ == tx_receipt_bytes(*args),
        r is Ok,
{
    let mut encoder: WriteEncoder = new_encoder();
    write_tx_receipt(args, &mut encoder);
    proof {
        assert(Seq::<u8>::empty() + tx_receipt_bytes(*args) =~= tx_receipt_bytes(*args));
    }
    Ok(encoder_buffer(&encoder))
}

/// Serializes the awaited transaction's receipt.
pub fn serialize_await_transaction_result(result: &TxReceipt) -> (r: Result<Vec<u8>, EncodeError>)
    ensures
        r matches Ok(b) ==> b@ == tx_receipt_bytes(*result),
        r is Ok,
{
    serialize_tx_receipt(result)
}

/// Serializes the receipt of a sent-and-awaited transaction.
pub fn serialize_send_transaction_and_wait_result(result: &TxReceipt) -> (r: Result<
    Vec<u8>,
    EncodeError,
>)
    ensures
        r matches Ok(b) ==> b@ == tx_receipt_bytes(*result),
        r is Ok,
{
    serialize_tx_receipt(result)
}

/// Serializes the receipt of an awaited contract call.
pub fn serialize_call_contract_method_and_wait_result(result: &TxReceipt) -> (r: Result<
    Vec<u8>,
    EncodeError,
>)
    ensures
        r matches Ok(b) ==> b@ == tx_receipt_bytes(*result),
        r is Ok,
{
    serialize_tx_receipt(result)
}

/// The wire spelling of a sequence of access list entries, in order.
pub open spec fn access_items_bytes(items: Seq<AccessItem>) -> Seq<u8>
    decreases items.len(),
{
    if items.len() == 0 {
        Seq::empty()
    } else {
        access_item_bytes(items[0]) + access_items_bytes(items.drop_first())
    }
}

pub proof fn lemma_access_items_push(items: Seq<AccessItem>, x: AccessItem)
    ensures
        access_items_bytes(items.push(x)) =~= access_items_bytes(items) + access_item_bytes(x),
    decreases items.len(),
{
    reveal_with_fuel(access_items_bytes, 3);
    if items.len() == 0 {
        assert(items.push(x).drop_first() =~= Seq::<AccessItem>::empty());
        assert(items.push(x)[0] == x);
        assert(access_item_bytes(x) + Seq::<u8>::empty() =~= access_item_bytes(x));
    } else {
        assert(items.push(x).drop_first() =~= items.drop_first().push(x));
        lemma_access_items_push(items.drop_first(), x);
        assert(items.push(x)[0] == items[0]);
        assert(access_item_bytes(items[0]) + (access_items_bytes(items.drop_first())
            + access_item_bytes(x)) =~= (access_item_bytes(items[0]) + access_items_bytes(
            items.drop_first(),
        )) + access_item_bytes(x));
    }
}

/// The wire spelling of an optional access list field value: nil, or an
/// array of the entries.
pub open spec fn opt_access_items_bytes(items: Option<Vec<AccessItem>>) -> Seq<u8> {
    match items {
        Some(l) => crate::msgpack::msgpack_array_len_bytes(l@.len() as u32) + access_items_bytes(
            l@,
        ),
        None => msgpack_nil_bytes(),
    }
}

/// Writes an optional access list: nil, or the entries.
fn write_optional_access_items(items: &Option<Vec<AccessItem>>, writer: &mut WriteEncoder)
    requires
        *items matches Some(l) ==> forall|i: int|
            0 <= i < l@.len() ==> (#[trigger] l@[i]).storage_keys@.len() <= u32::MAX,
    ensures
        encoder_bytes(*final(writer)) == encoder_bytes(*old(writer)) + opt_access_items_bytes(
            *items,
        ),
{
    let list: &Vec<AccessItem> = match items {
        Some(l) => l,
        None => {
            encoder_write_nil(writer);
            return ;
        },
    };
    let n: usize = list.len();
    crate::msgpack::encoder_write_array_length(writer, n as u32);
    let ghost base: Seq<u8> = encoder_bytes(*writer);
    let mut i: usize = 0;
    proof {
        assert(list@.take(0) =~= Seq::<AccessItem>::empty());
        assert(base + Seq::<u8>::empty() =~= base);
    }
    while i < n
        invariant
            n == list@.len(),
            forall|k: int| 0 <= k < n ==> (#[trigger] list@[k]).storage_keys@.len() <= u32::MAX,
            encoder_bytes(*writer) =~= base + access_items_bytes(list@.take(i as int)),
            i <= n,
        decreases n - i,
    {
        write_access_item(&list[i], writer);
        proof {
            let ls = list@;
            assert(ls.take(i + 1 as int) =~= ls.take(i as int).push(ls[i as int]));
            lemma_access_items_push(ls.take(i as int), ls[i as int]);
        }
        i = i + 1;
    }
    proof {
        assert(list@.take(n as int) =~= list@);
        assert(encoder_bytes(*writer) =~= encoder_bytes(*old(writer)) + opt_access_items_bytes(
            *items,
        ));
    }
}

/// The wire spelling of a transaction response: an eighteen-pair map.
pub open spec fn tx_response_bytes(r: TxResponse) -> Seq<u8> {
    msgpack_map_len_bytes(18) + msgpack_str_bytes("hash"@) + msgpack_str_bytes(r.hash@) + msgpack_str_bytes("to"@) + msgpack_opt_str_bytes(opt_view(r.to)) + msgpack_str_bytes("from"@) + msgpack_str_bytes(r.from@) + msgpack_str_bytes("nonce"@) + msgpack_uint_bytes(r.nonce) + msgpack_str_bytes("gasLimit"@) + msgpack_str_bytes(r.gas_limit@) + msgpack_str_bytes("maxFeePerGas"@) + msgpack_opt_str_bytes(opt_view(r.max_fee_per_gas)) + msgpack_str_bytes("maxPriorityFeePerGas"@) + msgpack_opt_str_bytes(opt_view(r.max_priority_fee_per_gas)) + msgpack_str_bytes("gasPrice"@) + msgpack_opt_str_bytes(opt_view(r.gas_price)) + msgpack_str_bytes("value"@) + msgpack_str_bytes(r.value@) + msgpack_str_bytes("chainId"@) + msgpack_str_bytes(r.chain_id@) + msgpack_str_bytes("blockNumber"@) + msgpack_opt_str_bytes(opt_view(r.block_number)) + msgpack_str_bytes("blockHash"@) + msgpack_opt_str_bytes(opt_view(r.block_hash)) + msgpack_str_bytes("timestamp"@) + msgpack_opt_uint_bytes(r.timestamp) + msgpack_str_bytes("r"@) + msgpack_opt_str_bytes(opt_view(r.r)) + msgpack_str_bytes("s"@) + msgpack_opt_str_bytes(opt_view(r.s)) + msgpack_str_bytes("v"@) + msgpack_opt_uint_bytes(r.v) + msgpack_str_bytes("type"@) + msgpack_opt_uint_bytes(r._type) + msgpack_str_bytes("accessList"@) + opt_access_items_bytes(r.access_list@)
}

/// Writes a transaction response.
pub fn write_tx_response(args: &TxResponse, writer: &mut WriteEncoder)
    requires
        args.access_list matches Some(l) ==> forall|i: int|
            0 <= i < l@.len() ==> (#[trigger] l@[i]).storage_keys@.len() <= u32::MAX,
    ensures
        encoder_bytes(*final(writer)) == encoder_bytes(*old(writer)) + tx_response_bytes(*args),
{
    let ghost pre: Seq<u8> = encoder_bytes(*writer);
    encoder_write_map_length(writer, 18);
    let ghost mut chain: Seq<u8> = msgpack_map_len_bytes(18);
    encoder_write_string(writer, "hash");
    proof {
        lemma_concat_assoc(pre, chain, msgpack_str_bytes("hash"@));
        chain = chain + msgpack_str_bytes("hash"@);
        assert(encoder_bytes(*writer) == pre + chain);
    }
    encoder_write_string(writer, args.hash.as_str());
    proof {
        lemma_concat_assoc(pre, chain, msgpack_str_bytes(args.hash@));
        chain = chain + msgpack_str_bytes(args.hash@);
        assert(encoder_bytes(*writer) == pre + chain);
    }
    encoder_write_string(writer, "to");
    proof {
        lemma_concat_assoc(pre, chain, msgpack_str_bytes("to"@));
        chain = chain + msgpack_str_bytes("to"@);
        assert(encoder_bytes(*writer) == pre + chain);
    }
    encoder_write_optional_string(writer, &args.to);
    proof {
        lemma_concat_assoc(pre, chain, msgpack_opt_str_bytes(opt_view(args.to)));
        chain = chain + msgpack_opt_str_bytes(opt_view(args.to));
        assert(encoder_bytes(*writer) == pre + chain);
    }
    encoder_write_string(writer, "from");
    proof {
        lemma_concat_assoc(pre, chain, msgpack_str_bytes("from"@));
        chain = chain + msgpack_str_bytes("from"@);
        assert(encoder_bytes(*writer) == pre + chain);
    }
    encoder_write_string(writer, args.from.as_str());
    proof {
        lemma_concat_assoc(pre, chain, msgpack_str_bytes(args.from@));
        chain = chain + msgpack_str_bytes(args.from@);
        assert(encoder_bytes(*writer) == pre + chain);
    }
    encoder_write_string(writer, "nonce");
    proof {
        lemma_concat_assoc(pre, chain, msgpack_str_bytes("nonce"@));
        chain = chain + msgpack_str_bytes("nonce"@);
        assert(encoder_bytes(*writer) == pre + chain);
    }
    encoder_write_u32(writer, args.nonce);
    proof {
        lemma_concat_assoc(pre, chain, msgpack_uint_bytes(args.nonce));
        chain = chain + msgpack_uint_bytes(args.nonce);
        assert(encoder_bytes(*writer) == pre + chain);
    }
    encoder_write_string(writer, "gasLimit");
    proof {
        lemma_concat_assoc(pre, chain, msgpack_str_bytes("gasLimit"@));
        chain = chain + msgpack_str_bytes("gasLimit"@);
        assert(encoder_bytes(*writer) == pre + chain);
    }
    encoder_write_string(writer, args.gas_limit.as_str());
    proof {
        lemma_concat_assoc(pre, chain, msgpack_str_bytes(args.gas_limit@));
        chain = chain + msgpack_str_bytes(args.gas_limit@);
        assert(encoder_bytes(*writer) == pre + chain);
    }
    encoder_write_string(writer, "maxFeePerGas");
    proof {
        lemma_concat_assoc(pre, chain, msgpack_str_bytes("maxFeePerGas"@));
        chain = chain + msgpack_str_bytes("maxFeePerGas"@);
        assert(encoder_bytes(*writer) == pre + chain);
    }
    encoder_write_optional_string(writer, &args.max_fee_per_gas);
    proof {
        lemma_concat_assoc(pre, chain, msgpack_opt_str_bytes(opt_view(args.max_fee_per_gas)));
        chain = chain + msgpack_opt_str_bytes(opt_view(args.max_fee_per_gas));
        assert(encoder_bytes(*writer) == pre + chain);
    }
    encoder_write_string(writer, "maxPriorityFeePerGas");
    proof {
        lemma_concat_assoc(pre, chain, msgpack_str_bytes("maxPriorityFeePerGas"@));
        chain = chain + msgpack_str_bytes("maxPriorityFeePerGas"@);
        assert(encoder_bytes(*writer) == pre + chain);
    }
    encoder_write_optional_string(writer, &args.max_priority_fee_per_gas);
    proof {
        lemma_concat_assoc(pre, chain, msgpack_opt_str_bytes(opt_view(args.max_priority_fee_per_gas)));
        chain = chain + msgpack_opt_str_bytes(opt_view(args.max_priority_fee_per_gas));
        assert(encoder_bytes(*writer) == pre + chain);
    }
    encoder_write_string(writer, "gasPrice");
    proof {
        lemma_concat_assoc(pre, chain, msgpack_str_bytes("gasPrice"@));
        chain = chain + msgpack_str_bytes("gasPrice"@);
        assert(encoder_bytes(*writer) == pre + chain);
    }
    encoder_write_optional_string(writer, &args.gas_price);
    proof {
        lemma_concat_assoc(pre, chain, msgpack_opt_str_bytes(opt_view(args.gas_price)));
        chain = chain + msgpack_opt_str_bytes(opt_view(args.gas_price));
        assert(encoder_bytes(*writer) == pre + chain);
    }
    encoder_write_string(writer, "value");
    proof {
        lemma_concat_assoc(pre, chain, msgpack_str_bytes("value"@));
        chain = chain + msgpack_str_bytes("value"@);
        assert(encoder_bytes(*writer) == pre + chain);
    }
    encoder_write_string(writer, args.value.as_str());
    proof {
        lemma_concat_assoc(pre, chain, msgpack_str_bytes(args.value@));
        chain = chain + msgpack_str_bytes(args.value@);
        assert(encoder_bytes(*writer) == pre + chain);
    }
    encoder_write_string(writer, "chainId");
    proof {
        lemma_concat_assoc(pre, chain, msgpack_str_bytes("chainId"@));
        chain = chain + msgpack_str_bytes("chainId"@);
        assert(encoder_bytes(*writer) == pre + chain);
    }
    encoder_write_string(writer, args.chain_id.as_str());
    proof {
        lemma_concat_assoc(pre, chain, msgpack_str_bytes(args.chain_id@));
        chain = chain + msgpack_str_bytes(args.chain_id@);
        assert(encoder_bytes(*writer) == pre + chain);
    }
    encoder_write_string(writer, "blockNumber");
    proof {
        lemma_concat_assoc(pre, chain, msgpack_str_bytes("blockNumber"@));
        chain = chain + msgpack_str_bytes("blockNumber"@);
        assert(encoder_bytes(*writer) == pre + chain);
    }
    encoder_write_optional_string(writer, &args.block_number);
    proof {
        lemma_concat_assoc(pre, chain, msgpack_opt_str_bytes(opt_view(args.block_number)));
        chain = chain + msgpack_opt_str_bytes(opt_view(args.block_number));
        assert(encoder_bytes(*writer) == pre + chain);
    }
    encoder_write_string(writer, "blockHash");
    proof {
        lemma_concat_assoc(pre, chain, msgpack_str_bytes("blockHash"@));
        chain = chain + msgpack_str_bytes("blockHash"@);
        assert(encoder_bytes(*writer) == pre + chain);
    }
    encoder_write_optional_string(writer, &args.block_hash);
    proof {
        lemma_concat_assoc(pre, chain, msgpack_opt_str_bytes(opt_view(args.block_hash)));
        chain = chain + msgpack_opt_str_bytes(opt_view(args.block_hash));
        assert(encoder_bytes(*writer) == pre + chain);
    }
    encoder_write_string(writer, "timestamp");
    proof {
        lemma_concat_assoc(pre, chain, msgpack_str_bytes("timestamp"@));
        chain = chain + msgpack_str_bytes("timestamp"@);
        assert(encoder_bytes(*writer) == pre + chain);
    }
    encoder_write_optional_u32(writer, &args.timestamp);
    proof {
        lemma_concat_assoc(pre, chain, msgpack_opt_uint_bytes(args.timestamp));
        chain = chain + msgpack_opt_uint_bytes(args.timestamp);
        assert(encoder_bytes(*writer) == pre + chain);
    }
    encoder_write_string(writer, "r");
    proof {
        lemma_concat_assoc(pre, chain, msgpack_str_bytes("r"@));
        chain = chain + msgpack_str_bytes("r"@);
        assert(encoder_bytes(*writer) == pre + chain);
    }
    encoder_write_optional_string(writer, &args.r);
    proof {
        lemma_concat_assoc(pre, chain, msgpack_opt_str_bytes(opt_view(args.r)));
        chain = chain + msgpack_opt_str_bytes(opt_view(args.r));
        assert(encoder_bytes(*writer) == pre + chain);
    }
    encoder_write_string(writer, "s");
    proof {
        lemma_concat_assoc(pre, chain, msgpack_str_bytes("s"@));
        chain = chain + msgpack_str_bytes("s"@);
        assert(encoder_bytes(*writer) == pre + chain);
    }
    encoder_write_optional_string(writer, &args.s);
    proof {
        lemma_concat_assoc(pre, chain, msgpack_opt_str_bytes(opt_view(args.s)));
        chain = chain + msgpack_opt_str_bytes(opt_view(args.s));
        assert(encoder_bytes(*writer) == pre + chain);
    }
    encoder_write_string(writer, "v");
    proof {
        lemma_concat_assoc(pre, chain, msgpack_str_bytes("v"@));
        chain = chain + msgpack_str_bytes("v"@);
        assert(encoder_bytes(*writer) == pre + chain);
    }
    encoder_write_optional_u32(writer, &args.v);
    proof {
        lemma_concat_assoc(pre, chain, msgpack_opt_uint_bytes(args.v));
        chain = chain + msgpack_opt_uint_bytes(args.v);
        assert(encoder_bytes(*writer) == pre + chain);
    }
    encoder_write_string(writer, "type");
    proof {
        lemma_concat_assoc(pre, chain, msgpack_str_bytes("type"@));
        chain = chain + msgpack_str_bytes("type"@);
        assert(encoder_bytes(*writer) == pre + chain);
    }
    encoder_write_optional_u32(writer, &args._type);
    proof {
        lemma_concat_assoc(pre, chain, msgpack_opt_uint_bytes(args._type));
        chain = chain + msgpack_opt_uint_bytes(args._type);
        assert(encoder_bytes(*writer) == pre + chain);
    }
    encoder_write_string(writer, "accessList");
    proof {
        lemma_concat_assoc(pre, chain, msgpack_str_bytes("accessList"@));
        chain = chain + msgpack_str_bytes("accessList"@);
        assert(encoder_bytes(*writer) == pre + chain);
    }
    write_optional_access_items(&args.access_list, writer);
    proof {
        lemma_concat_assoc(pre, chain, opt_access_items_bytes(args.access_list@));
        chain = chain + opt_access_items_bytes(args.access_list@);
        assert(encoder_bytes(*writer) == pre + chain);
    }
    proof {
        assert(chain == tx_response_bytes(*args));
    }
}

/// Serializes a transaction response into a fresh buffer.
pub fn serialize_tx_response(args: &TxResponse) -> (r: Result<Vec<u8>, EncodeError>)
    requires
        args.access_list matches Some(l) ==> forall|i: int|
            0 <= i < l@.len() ==> (#[trigger] l@[i]).storage_keys@.len() <= u32::MAX,
    ensures
        r matches Ok(b) ==> b@ == tx_response_bytes(*args),
        r is Ok,
{
    let mut encoder: WriteEncoder = new_encoder();
    write_tx_response(args, &mut encoder);
    proof {
        assert(Seq::<u8>::empty() + tx_response_bytes(*args) =~= tx_response_bytes(*args));
    }
    Ok(encoder_buffer(&encoder))
}

/// Serializes the sent transaction's response.
pub fn serialize_send_transaction_result(result: &TxResponse) -> (r: Result<Vec<u8>, EncodeError>)
    requires
        result.access_list matches Some(l) ==> forall|i: int|
            0 <= i < l@.len() ==> (#[trigger] l@[i]).storage_keys@.len() <= u32::MAX,
    ensures
        r matches Ok(b) ==> b@ == tx_response_bytes(*result),
        r is Ok,
{
    serialize_tx_response(result)
}

/// Serializes the response of a state-changing contract call.
pub fn serialize_call_contract_method_result(result: &TxResponse) -> (r: Result<
    Vec<u8>,
    EncodeError,
>)
    requires
        result.access_list matches Some(l) ==> forall|i: int|
            0 <= i < l@.len() ==> (#[trigger] l@[i]).storage_keys@.len() <= u32::MAX,
    ensures
        r matches Ok(b) ==> b@ == tx_response_bytes(*result),
        r is Ok,
{
    serialize_tx_response(result)
}

} // verus!
