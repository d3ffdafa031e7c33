use eth_wrapper::errors::PackError;
use eth_wrapper::pack::{_pack, solidity_pack};

fn pack_one(type_: &str, value: &str) -> Result<String, PackError> {
    solidity_pack(vec![type_.to_string()], vec![value.to_string()])
}

#[test]
fn pack_bool_true() {
    assert_eq!(pack_one("bool", "true").unwrap(), "0x01".to_string());
}

#[test]
fn pack_bool_false() {
    assert_eq!(pack_one("bool", "false").unwrap(), "0x00".to_string());
}

#[test]
fn pack_bool_other_literal_is_false() {
    assert_eq!(pack_one("bool", "yes").unwrap(), "0x00".to_string());
}

#[test]
fn pack_uint8_one() {
    assert_eq!(pack_one("uint8", "1").unwrap(), "0x01".to_string());
}

#[test]
fn pack_uint16_one() {
    assert_eq!(pack_one("uint16", "1").unwrap(), "0x0001".to_string());
}

#[test]
fn pack_uint_defaults_to_256_bits() {
    let expected = format!("0x{}{}", "0".repeat(63), "1");
    assert_eq!(pack_one("uint", "1").unwrap(), expected);
}

#[test]
fn pack_address_array_pads_each_to_32() {
    let a1 = "0x0000000000000000000000000000000000000001";
    let a2 = "0x0000000000000000000000000000000000000002";
    let packed = solidity_pack(
        vec!["address[2]".to_string()],
        vec![format!("{},{}", a1, a2)],
    )
    .unwrap();
    // 2 + 64 + 64 characters: 64 bytes in all
    assert_eq!(packed.len(), 2 + 128);
    let expected = format!("0x{}{}{}{}", "0".repeat(63), "1", "0".repeat(63), "2");
    assert_eq!(packed, expected);
}

#[test]
fn pack_address_standalone_is_20_bytes() {
    let packed = pack_one("address", "0x5aAeb6053F3E94C9b9A09f33669435E7Ef1BeAed").unwrap();
    assert_eq!(packed, "0x5aaeb6053f3e94c9b9a09f33669435e7ef1beaed".to_string());
}

#[test]
fn pack_arity_mismatch() {
    let r = solidity_pack(vec!["bool".to_string()], vec![]);
    assert_eq!(r.unwrap_err(), PackError::ArityMismatch);
    let r2 = solidity_pack(
        vec!["bool".to_string()],
        vec!["true".to_string(), "true".to_string()],
    );
    assert_eq!(r2.unwrap_err(), PackError::ArityMismatch);
}

#[test]
fn pack_uint8_overflow() {
    assert_eq!(pack_one("uint8", "256").unwrap_err(), PackError::NumericOverflow);
}

#[test]
fn pack_uint8_max_fits() {
    assert_eq!(pack_one("uint8", "255").unwrap(), "0xff".to_string());
}

#[test]
fn pack_int8_overflow_both_sides() {
    assert_eq!(pack_one("int8", "128").unwrap_err(), PackError::NumericOverflow);
    assert_eq!(pack_one("int8", "-129").unwrap_err(), PackError::NumericOverflow);
}

#[test]
fn pack_int8_bounds_fit() {
    assert_eq!(pack_one("int8", "-128").unwrap(), "0x80".to_string());
    assert_eq!(pack_one("int8", "127").unwrap(), "0x7f".to_string());
}

#[test]
fn pack_int16_minus_one_is_all_ones() {
    assert_eq!(pack_one("int16", "-1").unwrap(), "0xffff".to_string());
}

#[test]
fn pack_negative_uint_overflows() {
    assert_eq!(pack_one("uint8", "-1").unwrap_err(), PackError::NumericOverflow);
}

#[test]
fn pack_string_is_utf8() {
    assert_eq!(pack_one("string", "hello").unwrap(), "0x68656c6c6f".to_string());
}

#[test]
fn pack_dynamic_bytes_unpadded() {
    assert_eq!(pack_one("bytes", "0x1234").unwrap(), "0x1234".to_string());
}

#[test]
fn pack_fixed_bytes_checks_width() {
    assert_eq!(pack_one("bytes2", "0x1234").unwrap(), "0x1234".to_string());
    assert_eq!(
        pack_one("bytes4", "0x1234").unwrap_err(),
        PackError::InvalidBytesLength
    );
}

#[test]
fn pack_fixed_bytes_in_array_right_pads() {
    let packed = solidity_pack(vec!["bytes2[1]".to_string()], vec!["0x1234".to_string()])
        .unwrap();
    let expected = format!("0x1234{}", "0".repeat(60));
    assert_eq!(packed, expected);
}

#[test]
fn pack_uint8_array_unsized() {
    assert_eq!(
        pack_one("uint8[]", "1,2,3").unwrap(),
        "0x010203".to_string()
    );
}

#[test]
fn pack_array_length_mismatch() {
    assert_eq!(
        pack_one("uint8[2]", "1,2,3").unwrap_err(),
        PackError::InvalidArrayLength
    );
}

#[test]
fn pack_invalid_types() {
    assert_eq!(pack_one("uint7", "1").unwrap_err(), PackError::InvalidType);
    assert_eq!(pack_one("uint0", "1").unwrap_err(), PackError::InvalidType);
    assert_eq!(pack_one("uint264", "1").unwrap_err(), PackError::InvalidType);
    assert_eq!(pack_one("bytes0", "0x").unwrap_err(), PackError::InvalidType);
    assert_eq!(pack_one("bytes33", "0x00").unwrap_err(), PackError::InvalidType);
    assert_eq!(pack_one("floop", "1").unwrap_err(), PackError::InvalidType);
    assert_eq!(pack_one("uint08", "1").unwrap_err(), PackError::InvalidType);
}

#[test]
fn pack_invalid_hex_value() {
    assert_eq!(pack_one("bytes", "0x12g4").unwrap_err(), PackError::InvalidHex);
    assert_eq!(pack_one("bytes", "0x123").unwrap_err(), PackError::InvalidHex);
}

#[test]
fn pack_invalid_numeric_literal() {
    assert_eq!(pack_one("uint8", "ten").unwrap_err(), PackError::InvalidNumeric);
    assert_eq!(pack_one("uint8", "").unwrap_err(), PackError::InvalidNumeric);
}

#[test]
fn pack_bool_array_pads_to_32() {
    let packed = pack_one("bool[2]", "true,false").unwrap();
    let expected = format!("0x{}{}{}{}", "0".repeat(63), "1", "0".repeat(63), "0");
    assert_eq!(packed, expected);
}

#[test]
fn pack_several_pairs_concatenates_in_order() {
    let packed = solidity_pack(
        vec!["uint16".to_string(), "string".to_string(), "bool".to_string()],
        vec!["258".to_string(), "ab".to_string(), "true".to_string()],
    )
    .unwrap();
    assert_eq!(packed, "0x0102616201".to_string());
}

#[test]
fn pack_minus_zero_is_zero() {
    assert_eq!(pack_one("int8", "-0").unwrap(), "0x00".to_string());
}

#[test]
fn pack_underscore_name_parses_type_first() {
    let r = _pack("bool", "true", None).unwrap();
    assert_eq!(r, vec![1u8]);
    let r2 = _pack("bool", "true", Some(true)).unwrap();
    let mut expected = vec![0u8; 31];
    expected.push(1u8);
    assert_eq!(r2, expected);
    assert_eq!(_pack("blurb", "x", None).unwrap_err(), PackError::InvalidType);
}
