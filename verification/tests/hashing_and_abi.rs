use eth_wrapper::abi_codec::{check_number_runs, encode_params};
use eth_wrapper::errors::PackError;
use eth_wrapper::hashing::{
    encode_bytes_value, encode_meta_transaction, generate_create2_address, keccak256_bytes,
    keccak256_bytes_encode_packed, solidity_keccak256_bytes,
};
use ethers_core::abi::Token;

#[test]
fn keccak256_bytes_matches_reference_digest() {
    // the digest of the empty byte string is a fixed vector
    assert_eq!(
        keccak256_bytes("0x").unwrap(),
        "0xc5d2460186f7233c927e7db2dcc703c0e500b653ca82273b7bfad8045d85a470".to_string()
    );
    let expected = format!(
        "0x{}",
        hex::encode(ethers_core::utils::keccak256([0x12u8, 0x34u8]))
    );
    assert_eq!(keccak256_bytes("0x1234").unwrap(), expected);
    assert_eq!(keccak256_bytes("0x12g4").unwrap_err(), PackError::InvalidHex);
}

#[test]
fn keccak256_bytes_encode_packed_matches_reference() {
    // tightly packing one dynamic byte string leaves it unchanged
    let packed =
        ethers_core::abi::encode_packed(&[Token::Bytes(vec![0xabu8, 0xcdu8])]).unwrap();
    assert_eq!(packed, vec![0xabu8, 0xcdu8]);
    let expected = format!("0x{}", hex::encode(ethers_core::utils::keccak256(&packed)));
    assert_eq!(keccak256_bytes_encode_packed("0xabcd").unwrap(), expected);
}

#[test]
fn solidity_keccak256_bytes_matches_reference_encoder() {
    let encoded = ethers_core::abi::encode(&[Token::Bytes(b"hello".to_vec())]);
    let expected = format!(
        "0x{}",
        hex::encode(ethers_core::utils::keccak256(&encoded))
    );
    assert_eq!(solidity_keccak256_bytes("hello"), expected);
    let empty_encoded = ethers_core::abi::encode(&[Token::Bytes(Vec::new())]);
    let empty_expected = format!(
        "0x{}",
        hex::encode(ethers_core::utils::keccak256(&empty_encoded))
    );
    assert_eq!(solidity_keccak256_bytes(""), empty_expected);
}

#[test]
fn encode_bytes_value_is_utf8_hex() {
    assert_eq!(encode_bytes_value("hello"), "0x68656c6c6f".to_string());
    assert_eq!(encode_bytes_value(""), "0x".to_string());
}

#[test]
fn create2_address_matches_reference() {
    let deployer = "0x8ba1f109551bd432803012645ac136ddd64dba72";
    let salt = "0x7c5ea36004851c764c44143b1dcb59679b11c9a68e5f41497f6cf3d480715331";
    let init_code = "0x6394198df16000526103ff60206004601c335afa6040516060f3";
    let expected = format!(
        "{:?}",
        ethers_core::utils::get_create2_address(
            deployer.parse::<ethers_core::types::Address>().unwrap(),
            hex::decode(&salt[2..]).unwrap(),
            hex::decode(&init_code[2..]).unwrap(),
        )
    );
    assert_eq!(
        generate_create2_address(deployer, salt, init_code).unwrap(),
        expected
    );
    assert_eq!(
        generate_create2_address("0x1234", salt, init_code).unwrap_err(),
        PackError::InvalidBytesLength
    );
}

#[test]
fn meta_transaction_matches_reference_packing() {
    let to = "0x8ba1f109551bd432803012645ac136ddd64dba72";
    let data = "0xdeadbeef";
    let encoded = encode_meta_transaction(
        &Some("1".to_string()),
        to,
        "1000000000000000000",
        data,
    )
    .unwrap();
    let value_word = ethers_core::abi::encode(&[Token::Uint(
        ethers_core::types::U256::from_dec_str("1000000000000000000").unwrap(),
    )]);
    let len_word = ethers_core::abi::encode(&[Token::Uint(ethers_core::types::U256::from(4u8))]);
    let reference = ethers_core::abi::encode_packed(&[
        Token::FixedBytes(vec![1u8]),
        Token::Address(to.parse().unwrap()),
        Token::Bytes(value_word),
        Token::Bytes(len_word),
        Token::Bytes(vec![0xdeu8, 0xadu8, 0xbeu8, 0xefu8]),
    ])
    .unwrap();
    assert_eq!(encoded, format!("0x{}", hex::encode(reference)));

    let zero_op = encode_meta_transaction(&None, to, "0", "0x").unwrap();
    assert_eq!(&zero_op[2..4], "00");
    assert_eq!(
        encode_meta_transaction(&None, to, "-1", "0x").unwrap_err(),
        PackError::NumericOverflow
    );
    assert_eq!(
        encode_meta_transaction(&None, "0xzz", "0", "0x").unwrap_err(),
        PackError::InvalidHex
    );
}

#[test]
fn number_run_checker_judges_digit_runs() {
    assert!(check_number_runs("uint256[12]"));
    assert!(check_number_runs("no digits at all"));
    assert!(check_number_runs(""));
    assert!(check_number_runs("18446744073709551615ok"));
    assert!(!check_number_runs("bool[99999999999999999999]"));
    assert!(!check_number_runs("a99999999999999999999999b"));
}

#[test]
fn encode_params_refuses_panicking_inputs() {
    // an array size beyond the machine word is refused, not handed to
    // the codec's unchecked number parse
    assert_eq!(
        encode_params(
            &vec!["bool[99999999999999999999]".to_string()],
            &vec!["true".to_string()],
        )
        .unwrap_err(),
        PackError::InvalidType
    );
    // a non-ASCII array value is refused, not sliced mid-character
    assert_eq!(
        encode_params(&vec!["uint8[]".to_string()], &vec!["[éé]".to_string()])
            .unwrap_err(),
        PackError::InvalidType
    );
    // ordinary pairs still encode
    let ok = encode_params(&vec!["uint256".to_string()], &vec!["1".to_string()]).unwrap();
    assert_eq!(ok.len(), 32);
    assert_eq!(ok[31], 1u8);
}
