use eth_wrapper::address::{get_checksum_address, is_valid_address};
use eth_wrapper::errors::PackError;
use eth_wrapper::hex_data::{data_length, get_bytes, hexlify, to_utf8_bytes};
use eth_wrapper::pad::{zero_pad, zero_pad_bytes, zero_pad_value};

#[test]
fn checksum_known_vector_unchanged() {
    // an EIP-55 test vector: the canonical mixed-case form maps to itself
    let canonical = "0x5aAeb6053F3E94C9b9A09f33669435E7Ef1BeAed";
    assert_eq!(get_checksum_address(canonical), canonical.to_string());
}

#[test]
fn checksum_from_lowercase_and_uppercase() {
    let canonical = "0xfB6916095ca1df60bB79Ce92cE3Ea74c37c5d359";
    assert_eq!(
        get_checksum_address("0xfb6916095ca1df60bb79ce92ce3ea74c37c5d359"),
        canonical.to_string()
    );
    assert_eq!(
        get_checksum_address("0xFB6916095CA1DF60BB79CE92CE3EA74C37C5D359"),
        canonical.to_string()
    );
}

#[test]
fn checksum_without_prefix() {
    assert_eq!(
        get_checksum_address("dbf03b407c01e7cd3cbea99509d93f8dddc8c6fb"),
        "0xdbF03B407c01E7cD3CBea99509d93f8DDDC8C6FB".to_string()
    );
}

#[test]
fn checksum_is_idempotent_at_runtime() {
    let once = get_checksum_address("0x8617e340b3d01fa5f11f306f4090fd50e238070d");
    let twice = get_checksum_address(&once);
    assert_eq!(once, twice);
}

#[test]
fn valid_address_shapes() {
    assert!(is_valid_address("0x5aAeb6053F3E94C9b9A09f33669435E7Ef1BeAed"));
    assert!(is_valid_address("5aAeb6053F3E94C9b9A09f33669435E7Ef1BeAed"));
    assert!(!is_valid_address("0x5aAeb6053F3E94C9b9A09f33669435E7Ef1BeAe"));
    assert!(!is_valid_address("0x5aAeb6053F3E94C9b9A09f33669435E7Ef1BeAedA"));
    assert!(!is_valid_address("0xZZZeb6053F3E94C9b9A09f33669435E7Ef1BeAed"));
    assert!(!is_valid_address(""));
}

#[test]
fn hexlify_matches_reference_encoder() {
    let data: Vec<u8> = vec![0x00, 0x01, 0xab, 0xff, 0x10];
    assert_eq!(hexlify(&data), hex::encode(&data));
}

#[test]
fn get_bytes_decodes_with_and_without_prefix() {
    assert_eq!(get_bytes("0x1234").unwrap(), vec![0x12u8, 0x34u8]);
    assert_eq!(get_bytes("1234").unwrap(), vec![0x12u8, 0x34u8]);
    assert_eq!(get_bytes("0xAbCd").unwrap(), vec![0xabu8, 0xcdu8]);
    assert_eq!(get_bytes("0x").unwrap(), Vec::<u8>::new());
}

#[test]
fn get_bytes_rejects_bad_hex() {
    assert_eq!(get_bytes("0x123").unwrap_err(), PackError::InvalidHex);
    assert_eq!(get_bytes("12g4").unwrap_err(), PackError::InvalidHex);
}

#[test]
fn data_length_counts_bytes() {
    assert_eq!(data_length("0x123456").unwrap(), 3);
    assert_eq!(data_length("").unwrap(), 0);
    assert!(data_length("0x1").is_err());
}

#[test]
fn concat_joins_with_prefix() {
    let parts: Vec<Vec<u8>> = vec![vec![0x12u8], vec![0xabu8, 0xcdu8], vec![]];
    assert_eq!(eth_wrapper::hex_data::concat(&parts), "0x12abcd".to_string());
}

#[test]
fn utf8_bytes_of_literal() {
    assert_eq!(to_utf8_bytes("ab"), vec![0x61u8, 0x62u8]);
}

#[test]
fn zero_pad_left_and_right() {
    let data: Vec<u8> = vec![0x12u8, 0x34u8];
    assert_eq!(
        zero_pad_value(&data, 4).unwrap(),
        vec![0x00u8, 0x00u8, 0x12u8, 0x34u8]
    );
    assert_eq!(
        zero_pad_bytes(&data, 4).unwrap(),
        vec![0x12u8, 0x34u8, 0x00u8, 0x00u8]
    );
    assert_eq!(zero_pad(&data, 2, true).unwrap(), data);
}

#[test]
fn zero_pad_overrun() {
    let data: Vec<u8> = vec![0x12u8, 0x34u8, 0x56u8];
    assert_eq!(zero_pad(&data, 2, true).unwrap_err(), PackError::BufferOverrun);
}

#[test]
fn pack_error_messages_are_nonempty() {
    assert!(!PackError::InvalidType.message().is_empty());
    assert!(!PackError::NumericOverflow.message().is_empty());
}
