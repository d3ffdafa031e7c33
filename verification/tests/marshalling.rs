use eth_wrapper::serialization::{
    deserialize_check_address_args, deserialize_encode_params_args, deserialize_get_chain_id_args,
    deserialize_send_rpc_args, deserialize_to_wei_args, serialize_check_address_result,
    serialize_get_chain_id_result, serialize_provider_connection, serialize_request_args,
    serialize_to_wei_result,
};
use eth_wrapper::wrap_types::{
    get_iprovider, AccessItem, ArgsRequest, Connection, PolywrapProvider, ProviderConnection,
    ProviderModule, StaticTxResult, WrapProvider,
};
use eth_wrapper::wrapped::{
    call_contract_view_wrapped, check_address_wrapped, encode_params_wrapped,
    estimate_eip1559_fees_wrapped, get_balance_wrapped, get_chain_id_wrapped,
    get_gas_price_wrapped, get_signer_address_wrapped, get_signer_balance_wrapped,
    get_signer_transaction_count_wrapped, send_rpc_wrapped, sign_message_wrapped,
    to_eth_wrapped, to_wei_wrapped,
};
use eth_wrapper::wrap_types::Eip1559FeesEstimate;

/// A msgpack string: a fixstr or str8 header, then the ASCII bytes.
fn fixstr(s: &str) -> Vec<u8> {
    let mut v = if s.len() < 32 {
        vec![0xa0u8 + s.len() as u8]
    } else {
        vec![0xd9u8, s.len() as u8]
    };
    v.extend_from_slice(s.as_bytes());
    v
}

/// A one-field map whose value is a string: `{ name: value }`.
fn map1_str(name: &str, value: &str) -> Vec<u8> {
    let mut v = vec![0x81u8];
    v.extend_from_slice(&fixstr(name));
    v.extend_from_slice(&fixstr(value));
    v
}

#[test]
fn to_wei_args_round_trip_bytes() {
    let args = map1_str("eth", "1.5");
    let parsed = deserialize_to_wei_args(&args).unwrap();
    assert_eq!(parsed.eth, "1.5".to_string());
}

#[test]
fn to_wei_args_unknown_field() {
    let args = map1_str("fee", "1.5");
    assert!(deserialize_to_wei_args(&args).is_err());
}

#[test]
fn to_wei_args_missing_field() {
    let args = vec![0x80u8];
    assert!(deserialize_to_wei_args(&args).is_err());
}

#[test]
fn to_wei_wrapped_end_to_end() {
    let args = map1_str("eth", "0.001");
    let out = to_wei_wrapped(&args, 0).unwrap();
    assert_eq!(out, fixstr("1000000000000000"));
}

#[test]
fn to_eth_wrapped_end_to_end() {
    let args = map1_str("wei", "1000000000000000000");
    let out = to_eth_wrapped(&args, 0).unwrap();
    assert_eq!(out, fixstr("1"));
}

#[test]
fn to_wei_result_is_a_msgpack_string() {
    let out = serialize_to_wei_result(&"7".to_string()).unwrap();
    assert_eq!(out, fixstr("7"));
}

#[test]
fn check_address_wrapped_end_to_end() {
    let good = map1_str("address", "0x5aAeb6053F3E94C9b9A09f33669435E7Ef1BeAed");
    assert_eq!(check_address_wrapped(&good, 0).unwrap(), vec![0xc3u8]);
    let bad = map1_str("address", "nonsense");
    assert_eq!(check_address_wrapped(&bad, 0).unwrap(), vec![0xc2u8]);
    assert_eq!(serialize_check_address_result(&true).unwrap(), vec![0xc3u8]);
}

#[test]
fn check_address_args_take_nil_connection() {
    let mut args = vec![0x82u8];
    args.extend_from_slice(&fixstr("address"));
    args.extend_from_slice(&fixstr("0x00"));
    args.extend_from_slice(&fixstr("connection"));
    args.push(0xc0u8);
    let parsed = deserialize_check_address_args(&args).unwrap();
    assert_eq!(parsed.address, "0x00".to_string());
    assert!(parsed.connection.is_none());
}

#[test]
fn get_chain_id_args_with_connection_record() {
    let mut args = vec![0x81u8];
    args.extend_from_slice(&fixstr("connection"));
    args.push(0x82u8);
    args.extend_from_slice(&fixstr("node"));
    args.push(0xc0u8);
    args.extend_from_slice(&fixstr("networkNameOrChainId"));
    args.extend_from_slice(&fixstr("mainnet"));
    let parsed = deserialize_get_chain_id_args(&args).unwrap();
    let conn = parsed.connection.unwrap();
    assert!(conn.node.is_none());
    assert_eq!(conn.network_name_or_chain_id, Some("mainnet".to_string()));
}

#[test]
fn get_chain_id_wrapped_encodes_the_answer() {
    let mut args = vec![0x81u8];
    args.extend_from_slice(&fixstr("connection"));
    args.push(0xc0u8);
    let out = get_chain_id_wrapped(&args, &"1".to_string()).unwrap();
    assert_eq!(out, fixstr("1"));
    assert_eq!(
        serialize_get_chain_id_result(&"5".to_string()).unwrap(),
        fixstr("5")
    );
}

#[test]
fn get_signer_address_wrapped_encodes_the_answer() {
    let mut args = vec![0x81u8];
    args.extend_from_slice(&fixstr("connection"));
    args.push(0xc0u8);
    let out = get_signer_address_wrapped(&args, &"0xabc".to_string()).unwrap();
    assert_eq!(out, fixstr("0xabc"));
}

#[test]
fn send_rpc_wrapped_checks_args_and_encodes_answer() {
    let mut args = vec![0x83u8];
    args.extend_from_slice(&fixstr("method"));
    args.extend_from_slice(&fixstr("eth_blockNumber"));
    args.extend_from_slice(&fixstr("params"));
    args.push(0x90u8);
    args.extend_from_slice(&fixstr("connection"));
    args.push(0xc0u8);
    let parsed = deserialize_send_rpc_args(&args).unwrap();
    assert_eq!(parsed.method, "eth_blockNumber".to_string());
    assert!(parsed.params.is_empty());
    let out = send_rpc_wrapped(&args, &"0x10".to_string()).unwrap();
    assert_eq!(out, fixstr("0x10"));
}

#[test]
fn sign_message_wrapped_encodes_the_signature() {
    let mut args = vec![0x82u8];
    args.extend_from_slice(&fixstr("message"));
    args.extend_from_slice(&fixstr("hi"));
    args.extend_from_slice(&fixstr("connection"));
    args.push(0xc0u8);
    let out = sign_message_wrapped(&args, &"0xsig".to_string()).unwrap();
    assert_eq!(out, fixstr("0xsig"));
}

#[test]
fn encode_params_wrapped_end_to_end() {
    let mut args = vec![0x83u8];
    args.extend_from_slice(&fixstr("types"));
    args.push(0x91u8);
    args.extend_from_slice(&fixstr("uint256"));
    args.extend_from_slice(&fixstr("values"));
    args.push(0x91u8);
    args.extend_from_slice(&fixstr("1"));
    args.extend_from_slice(&fixstr("connection"));
    args.push(0xc0u8);
    let parsed = deserialize_encode_params_args(&args).unwrap();
    assert_eq!(parsed.types, vec!["uint256".to_string()]);
    assert_eq!(parsed.values, vec!["1".to_string()]);
    let out = encode_params_wrapped(&args, 0).unwrap();
    let expected = format!("0x{}{}", "0".repeat(63), "1");
    // a 66-character string takes a str8 header
    let mut wire = vec![0xd9u8, 66u8];
    wire.extend_from_slice(expected.as_bytes());
    assert_eq!(out, wire);
}

#[test]
fn provider_connection_serializes_to_a_two_field_map() {
    let conn = ProviderConnection {
        node: None,
        network_name_or_chain_id: Some("goerli".to_string()),
    };
    let out = serialize_provider_connection(&conn).unwrap();
    let mut expected = vec![0x82u8];
    expected.extend_from_slice(&fixstr("node"));
    expected.push(0xc0u8);
    expected.extend_from_slice(&fixstr("networkNameOrChainId"));
    expected.extend_from_slice(&fixstr("goerli"));
    assert_eq!(out, expected);
}

#[test]
fn request_args_serialize_shape() {
    let args = ArgsRequest {
        method: "eth_chainId".to_string(),
        params: None,
        connection: None,
    };
    let out = serialize_request_args(&args).unwrap();
    let mut expected = vec![0x83u8];
    expected.extend_from_slice(&fixstr("method"));
    expected.extend_from_slice(&fixstr("eth_chainId"));
    expected.extend_from_slice(&fixstr("params"));
    expected.push(0xc0u8);
    expected.extend_from_slice(&fixstr("connection"));
    expected.push(0xc0u8);
    assert_eq!(out, expected);
}

#[test]
fn data_type_constructors() {
    let access = AccessItem::new();
    assert!(access.address.is_empty());
    assert!(access.storage_keys.is_empty());
    let conn = ProviderConnection::new();
    assert!(conn.node.is_none() && conn.network_name_or_chain_id.is_none());
    let _module = ProviderModule::new();
    let result = StaticTxResult::new();
    assert!(result.result.is_empty() && !result.error);
    let provider = PolywrapProvider::new(&Some(Connection {
        node: Some("http://localhost:8545".to_string()),
        network_name_or_chain_id: None,
    }));
    let pc = provider.connection.unwrap();
    assert_eq!(pc.node, Some("http://localhost:8545".to_string()));
    assert!(pc.network_name_or_chain_id.is_none());
    let wrap = WrapProvider::new(&None);
    assert!(wrap.connection.is_none());
    let copy = ProviderConnection::new().duplicate();
    assert!(copy.node.is_none());
}

#[test]
fn iprovider_takes_the_first_implementation() {
    let impls = vec!["wrap://ens/a.eth".to_string(), "wrap://ens/b.eth".to_string()];
    let provider = get_iprovider(&impls).unwrap();
    assert_eq!(provider.uri, "wrap://ens/a.eth".to_string());
    assert!(get_iprovider(&Vec::new()).is_err());
}


#[test]
fn gas_price_and_balances_encode_their_answers() {
    let mut args = vec![0x81u8];
    args.extend_from_slice(&fixstr("connection"));
    args.push(0xc0u8);
    assert_eq!(
        get_gas_price_wrapped(&args, &"42".to_string()).unwrap(),
        fixstr("42")
    );
    let mut bt_args = vec![0x82u8];
    bt_args.extend_from_slice(&fixstr("blockTag"));
    bt_args.extend_from_slice(&fixstr("12"));
    bt_args.extend_from_slice(&fixstr("connection"));
    bt_args.push(0xc0u8);
    let parsed = eth_wrapper::serialization::deserialize_get_signer_balance_args(&bt_args).unwrap();
    assert_eq!(parsed.block_tag, Some("12".to_string()));
    assert_eq!(
        get_signer_balance_wrapped(&bt_args, &"7".to_string()).unwrap(),
        fixstr("7")
    );
    assert_eq!(
        get_signer_transaction_count_wrapped(&bt_args, &"3".to_string()).unwrap(),
        fixstr("3")
    );
    let mut bal_args = vec![0x82u8];
    bal_args.extend_from_slice(&fixstr("address"));
    bal_args.extend_from_slice(&fixstr("0x00"));
    bal_args.extend_from_slice(&fixstr("connection"));
    bal_args.push(0xc0u8);
    assert_eq!(
        get_balance_wrapped(&bal_args, &"9".to_string()).unwrap(),
        fixstr("9")
    );
}

#[test]
fn fee_estimate_encodes_a_two_field_map() {
    let mut args = vec![0x81u8];
    args.extend_from_slice(&fixstr("connection"));
    args.push(0xc0u8);
    let fees = Eip1559FeesEstimate {
        max_fee_per_gas: "100".to_string(),
        max_priority_fee_per_gas: "2".to_string(),
    };
    let out = estimate_eip1559_fees_wrapped(&args, &fees).unwrap();
    let mut expected = vec![0x82u8];
    expected.extend_from_slice(&fixstr("maxFeePerGas"));
    expected.extend_from_slice(&fixstr("100"));
    expected.extend_from_slice(&fixstr("maxPriorityFeePerGas"));
    expected.extend_from_slice(&fixstr("2"));
    assert_eq!(out, expected);
}

#[test]
fn call_contract_view_wrapped_checks_args_and_encodes_answer() {
    let mut args = vec![0x84u8];
    args.extend_from_slice(&fixstr("address"));
    args.extend_from_slice(&fixstr("0x00"));
    args.extend_from_slice(&fixstr("method"));
    args.extend_from_slice(&fixstr("function f() view returns (uint256)"));
    args.extend_from_slice(&fixstr("args"));
    args.push(0xc0u8);
    args.extend_from_slice(&fixstr("connection"));
    args.push(0xc0u8);
    let out = call_contract_view_wrapped(&args, &"5".to_string()).unwrap();
    assert_eq!(out, fixstr("5"));
}

#[test]
fn decode_function_result_is_a_string_array() {
    let values = vec!["1".to_string(), "ab".to_string()];
    let out = eth_wrapper::serialization::serialize_decode_function_result(&values).unwrap();
    let mut expected = vec![0x92u8];
    expected.extend_from_slice(&fixstr("1"));
    expected.extend_from_slice(&fixstr("ab"));
    assert_eq!(out, expected);
}

#[test]
fn encode_function_and_decode_function_args_parse() {
    let mut args = vec![0x83u8];
    args.extend_from_slice(&fixstr("method"));
    args.extend_from_slice(&fixstr("function f(uint256)"));
    args.extend_from_slice(&fixstr("args"));
    args.push(0x91u8);
    args.extend_from_slice(&fixstr("1"));
    args.extend_from_slice(&fixstr("connection"));
    args.push(0xc0u8);
    let parsed = eth_wrapper::serialization::deserialize_encode_function_args(&args).unwrap();
    assert_eq!(parsed.method, "function f(uint256)".to_string());
    assert_eq!(parsed.args, Some(vec!["1".to_string()]));

    let mut dargs = vec![0x83u8];
    dargs.extend_from_slice(&fixstr("method"));
    dargs.extend_from_slice(&fixstr("function f(uint256)"));
    dargs.extend_from_slice(&fixstr("data"));
    dargs.extend_from_slice(&fixstr("0x00"));
    dargs.extend_from_slice(&fixstr("connection"));
    dargs.push(0xc0u8);
    let dparsed = eth_wrapper::serialization::deserialize_decode_function_args(&dargs).unwrap();
    assert_eq!(dparsed.data, "0x00".to_string());
}


#[test]
fn access_item_round_trips_through_the_wire() {
    let item = eth_wrapper::wrap_types::AccessItem {
        address: "0x01".to_string(),
        storage_keys: vec!["0xaa".to_string(), "0xbb".to_string()],
    };
    let wire = eth_wrapper::serialization::serialize_access_item(&item).unwrap();
    let mut expected = vec![0x82u8];
    expected.extend_from_slice(&fixstr("address"));
    expected.extend_from_slice(&fixstr("0x01"));
    expected.extend_from_slice(&fixstr("storageKeys"));
    expected.push(0x92u8);
    expected.extend_from_slice(&fixstr("0xaa"));
    expected.extend_from_slice(&fixstr("0xbb"));
    assert_eq!(wire, expected);
    let back = eth_wrapper::serialization::deserialize_access_item(&wire).unwrap();
    assert_eq!(back.address, item.address);
    assert_eq!(back.storage_keys, item.storage_keys);
}

#[test]
fn static_tx_result_round_trips_through_the_wire() {
    let value = eth_wrapper::wrap_types::StaticTxResult {
        result: "5".to_string(),
        error: false,
    };
    let wire = eth_wrapper::serialization::serialize_static_tx_result(&value).unwrap();
    let mut expected = vec![0x82u8];
    expected.extend_from_slice(&fixstr("result"));
    expected.extend_from_slice(&fixstr("5"));
    expected.extend_from_slice(&fixstr("error"));
    expected.push(0xc2u8);
    assert_eq!(wire, expected);
    let back = eth_wrapper::serialization::deserialize_static_tx_result(&wire).unwrap();
    assert_eq!(back.result, value.result);
    assert!(!back.error);
}


#[test]
fn contract_call_args_and_tx_options_parse() {
    let mut opts = vec![0x83u8];
    opts.extend_from_slice(&fixstr("gasLimit"));
    opts.extend_from_slice(&fixstr("21000"));
    opts.extend_from_slice(&fixstr("value"));
    opts.push(0xc0u8);
    opts.extend_from_slice(&fixstr("nonce"));
    opts.push(0x07u8);
    let parsed_opts = eth_wrapper::serialization::deserialize_tx_options(&opts).unwrap();
    assert_eq!(parsed_opts.gas_limit, Some("21000".to_string()));
    assert!(parsed_opts.value.is_none());
    assert_eq!(parsed_opts.nonce, Some(7));

    let mut args = vec![0x85u8];
    args.extend_from_slice(&fixstr("address"));
    args.extend_from_slice(&fixstr("0x01"));
    args.extend_from_slice(&fixstr("method"));
    args.extend_from_slice(&fixstr("function f()"));
    args.extend_from_slice(&fixstr("args"));
    args.push(0xc0u8);
    args.extend_from_slice(&fixstr("options"));
    args.extend_from_slice(&opts);
    args.extend_from_slice(&fixstr("connection"));
    args.push(0xc0u8);
    let parsed =
        eth_wrapper::serialization::deserialize_call_contract_static_args(&args).unwrap();
    assert_eq!(parsed.address, "0x01".to_string());
    assert_eq!(parsed.method, "function f()".to_string());
    assert!(parsed.args.is_none());
    assert_eq!(parsed.options.unwrap().nonce, Some(7));

    let result = eth_wrapper::wrap_types::StaticTxResult {
        result: "ok".to_string(),
        error: false,
    };
    let out =
        eth_wrapper::wrapped::call_contract_static_wrapped(&args, &result).unwrap();
    let mut expected = vec![0x82u8];
    expected.extend_from_slice(&fixstr("result"));
    expected.extend_from_slice(&fixstr("ok"));
    expected.extend_from_slice(&fixstr("error"));
    expected.push(0xc2u8);
    assert_eq!(out, expected);

    let gas_parsed =
        eth_wrapper::serialization::deserialize_estimate_contract_call_gas_args(&args).unwrap();
    assert_eq!(gas_parsed.method, "function f()".to_string());
    assert_eq!(
        eth_wrapper::wrapped::estimate_contract_call_gas_wrapped(&args, &"21000".to_string())
            .unwrap(),
        fixstr("21000")
    );
    let m_parsed =
        eth_wrapper::serialization::deserialize_call_contract_method_args(&args).unwrap();
    assert_eq!(m_parsed.address, "0x01".to_string());
    let mw_parsed =
        eth_wrapper::serialization::deserialize_call_contract_method_and_wait_args(&args)
            .unwrap();
    assert_eq!(mw_parsed.address, "0x01".to_string());
}

#[test]
fn deploy_contract_args_parse_and_answer_encodes() {
    let mut args = vec![0x83u8];
    args.extend_from_slice(&fixstr("abi"));
    args.extend_from_slice(&fixstr("[]"));
    args.extend_from_slice(&fixstr("bytecode"));
    args.extend_from_slice(&fixstr("0x60"));
    args.extend_from_slice(&fixstr("connection"));
    args.push(0xc0u8);
    let parsed = eth_wrapper::serialization::deserialize_deploy_contract_args(&args).unwrap();
    assert_eq!(parsed.abi, "[]".to_string());
    assert_eq!(parsed.bytecode, "0x60".to_string());
    assert_eq!(
        eth_wrapper::wrapped::deploy_contract_wrapped(&args, &"0x02".to_string()).unwrap(),
        fixstr("0x02")
    );
    let missing = vec![0x80u8];
    assert!(eth_wrapper::serialization::deserialize_deploy_contract_args(&missing).is_err());
}


#[test]
fn tx_request_args_parse_with_access_list() {
    let mut tx = vec![0x84u8];
    tx.extend_from_slice(&fixstr("to"));
    tx.extend_from_slice(&fixstr("0x01"));
    tx.extend_from_slice(&fixstr("value"));
    tx.extend_from_slice(&fixstr("1000"));
    tx.extend_from_slice(&fixstr("accessList"));
    tx.push(0x91u8);
    tx.push(0x82u8);
    tx.extend_from_slice(&fixstr("address"));
    tx.extend_from_slice(&fixstr("0x02"));
    tx.extend_from_slice(&fixstr("storageKeys"));
    tx.push(0x90u8);
    tx.extend_from_slice(&fixstr("nonce"));
    tx.push(0x05u8);
    let request = eth_wrapper::serialization::deserialize_tx_request(&tx).unwrap();
    assert_eq!(request.to, Some("0x01".to_string()));
    assert_eq!(request.value, Some("1000".to_string()));
    assert_eq!(request.nonce, Some(5));
    let list = request.access_list.unwrap();
    assert_eq!(list.len(), 1);
    assert_eq!(list[0].address, "0x02".to_string());

    let mut args = vec![0x82u8];
    args.extend_from_slice(&fixstr("tx"));
    args.extend_from_slice(&tx);
    args.extend_from_slice(&fixstr("connection"));
    args.push(0xc0u8);
    let parsed =
        eth_wrapper::serialization::deserialize_estimate_transaction_gas_args(&args).unwrap();
    assert_eq!(parsed.tx.to, Some("0x01".to_string()));
    assert_eq!(
        eth_wrapper::wrapped::estimate_transaction_gas_wrapped(&args, &"21000".to_string())
            .unwrap(),
        fixstr("21000")
    );
    let sent = eth_wrapper::serialization::deserialize_send_transaction_args(&args).unwrap();
    assert_eq!(sent.tx.nonce, Some(5));
    let sent_wait =
        eth_wrapper::serialization::deserialize_send_transaction_and_wait_args(&args).unwrap();
    assert_eq!(sent_wait.tx.value, Some("1000".to_string()));
}

#[test]
fn await_transaction_args_parse() {
    let mut args = vec![0x82u8];
    args.extend_from_slice(&fixstr("txHash"));
    args.extend_from_slice(&fixstr("0xabc"));
    args.extend_from_slice(&fixstr("connection"));
    args.push(0xc0u8);
    let parsed = eth_wrapper::serialization::deserialize_await_transaction_args(&args).unwrap();
    assert_eq!(parsed.tx_hash, "0xabc".to_string());
    assert!(parsed.connection.is_none());
    let missing = vec![0x80u8];
    assert!(eth_wrapper::serialization::deserialize_await_transaction_args(&missing).is_err());
}


/// A msgpack uint in its shortest form.
fn fixuint(n: u32) -> Vec<u8> {
    if n < 128 {
        vec![n as u8]
    } else if n <= 0xff {
        vec![0xccu8, n as u8]
    } else {
        vec![0xcdu8, (n / 256) as u8, (n % 256) as u8]
    }
}

#[test]
fn log_and_receipt_encode_exactly() {
    let log = eth_wrapper::wrap_types::Log {
        block_number: "1".to_string(),
        block_hash: "0xb".to_string(),
        transaction_index: 2,
        removed: false,
        address: "0xa".to_string(),
        data: "0xd".to_string(),
        topics: vec!["0xt".to_string()],
        transaction_hash: "0xh".to_string(),
        log_index: 200,
    };
    let wire = eth_wrapper::serialization::serialize_log(&log).unwrap();
    let mut expected = vec![0x89u8];
    expected.extend_from_slice(&fixstr("blockNumber"));
    expected.extend_from_slice(&fixstr("1"));
    expected.extend_from_slice(&fixstr("blockHash"));
    expected.extend_from_slice(&fixstr("0xb"));
    expected.extend_from_slice(&fixstr("transactionIndex"));
    expected.extend_from_slice(&fixuint(2));
    expected.extend_from_slice(&fixstr("removed"));
    expected.push(0xc2u8);
    expected.extend_from_slice(&fixstr("address"));
    expected.extend_from_slice(&fixstr("0xa"));
    expected.extend_from_slice(&fixstr("data"));
    expected.extend_from_slice(&fixstr("0xd"));
    expected.extend_from_slice(&fixstr("topics"));
    expected.push(0x91u8);
    expected.extend_from_slice(&fixstr("0xt"));
    expected.extend_from_slice(&fixstr("transactionHash"));
    expected.extend_from_slice(&fixstr("0xh"));
    expected.extend_from_slice(&fixstr("logIndex"));
    expected.extend_from_slice(&fixuint(200));
    assert_eq!(wire, expected);

    let mut receipt = eth_wrapper::wrap_types::TxReceipt::new();
    receipt.to = "0x01".to_string();
    receipt.status = Some(1);
    receipt.logs = vec![log];
    let receipt_wire = eth_wrapper::serialization::serialize_tx_receipt(&receipt).unwrap();
    // spot checks: the header (a map16 of sixteen pairs), the required
    // field names, the embedded log
    assert_eq!(&receipt_wire[0..3], &[0xdeu8, 0x00u8, 0x10u8]);
    let hay = receipt_wire.as_slice();
    let needle = fixstr("effectiveGasPrice");
    assert!(hay.windows(needle.len()).any(|w| w == needle.as_slice()));
    assert!(hay.windows(expected.len()).any(|w| w == expected.as_slice()));

    // the awaiting entry encodes the same receipt bytes
    let mut args = vec![0x82u8];
    args.extend_from_slice(&fixstr("txHash"));
    args.extend_from_slice(&fixstr("0xabc"));
    args.extend_from_slice(&fixstr("connection"));
    args.push(0xc0u8);
    assert_eq!(
        eth_wrapper::wrapped::await_transaction_wrapped(&args, &receipt).unwrap(),
        receipt_wire
    );
}


#[test]
fn send_transaction_wrapped_encodes_the_response() {
    let mut args = vec![0x82u8];
    args.extend_from_slice(&fixstr("tx"));
    args.push(0x80u8);
    args.extend_from_slice(&fixstr("connection"));
    args.push(0xc0u8);
    let mut response = eth_wrapper::wrap_types::TxResponse::new();
    response.hash = "0xh".to_string();
    response.nonce = 1;
    let out = eth_wrapper::wrapped::send_transaction_wrapped(&args, &response).unwrap();
    // an eighteen-pair map opening with the hash
    assert_eq!(&out[0..3], &[0xdeu8, 0x00u8, 0x12u8]);
    let needle = fixstr("hash");
    assert_eq!(&out[3..3 + needle.len()], needle.as_slice());
    let mut call_args = vec![0x82u8];
    call_args.extend_from_slice(&fixstr("address"));
    call_args.extend_from_slice(&fixstr("0x01"));
    call_args.extend_from_slice(&fixstr("method"));
    call_args.extend_from_slice(&fixstr("function f()"));
    let out2 =
        eth_wrapper::wrapped::call_contract_method_wrapped(&call_args, &response).unwrap();
    assert_eq!(out, out2);
}
