use eth_wrapper::errors::PackError;
use eth_wrapper::numeric::{encode_twos_complement, encode_unsigned, parse_big_int};
use eth_wrapper::type_parser::{
    matches_regex_array, matches_regex_bytes, matches_regex_number, parse_type, TypeDescriptor,
};

#[test]
fn regex_bytes_matches() {
    assert_eq!(matches_regex_bytes("bytes16"), Some("16".to_string()));
    assert_eq!(matches_regex_bytes("bytes"), Some("".to_string()));
    assert_eq!(matches_regex_bytes("bytes16x"), None);
    assert_eq!(matches_regex_bytes("bites16"), None);
}

#[test]
fn regex_number_matches() {
    assert_eq!(
        matches_regex_number("uint256"),
        Some(("uint".to_string(), "256".to_string()))
    );
    assert_eq!(
        matches_regex_number("int8"),
        Some(("int".to_string(), "8".to_string()))
    );
    assert_eq!(
        matches_regex_number("int"),
        Some(("int".to_string(), "".to_string()))
    );
    assert_eq!(matches_regex_number("integer"), None);
    assert_eq!(matches_regex_number("int8[2]"), None);
}

#[test]
fn regex_array_matches() {
    assert_eq!(
        matches_regex_array("address[3]"),
        Some(("address".to_string(), "3".to_string()))
    );
    assert_eq!(
        matches_regex_array("bool[]"),
        Some(("bool".to_string(), "".to_string()))
    );
    // the bracket pair is the trailing one, as the greedy pattern takes it
    assert_eq!(
        matches_regex_array("uint8[2][3]"),
        Some(("uint8[2]".to_string(), "3".to_string()))
    );
    assert_eq!(matches_regex_array("address[3"), None);
    assert_eq!(matches_regex_array("address[x]"), None);
    assert_eq!(matches_regex_array("[3]"), None);
}

#[test]
fn parse_type_elementary() {
    assert!(matches!(parse_type("address"), Ok(TypeDescriptor::Address)));
    assert!(matches!(parse_type("bool"), Ok(TypeDescriptor::Bool)));
    assert!(matches!(parse_type("string"), Ok(TypeDescriptor::Utf8String)));
    assert!(matches!(parse_type("bytes"), Ok(TypeDescriptor::DynamicBytes)));
}

#[test]
fn parse_type_numbers() {
    assert!(matches!(parse_type("uint8"), Ok(TypeDescriptor::UnsignedInt(8))));
    assert!(matches!(parse_type("int160"), Ok(TypeDescriptor::SignedInt(160))));
    assert!(matches!(parse_type("uint"), Ok(TypeDescriptor::UnsignedInt(256))));
    assert!(matches!(parse_type("int"), Ok(TypeDescriptor::SignedInt(256))));
    assert_eq!(parse_type("uint12").unwrap_err(), PackError::InvalidType);
    assert_eq!(parse_type("uint257").unwrap_err(), PackError::InvalidType);
    assert_eq!(
        parse_type("uint99999999999999999999").unwrap_err(),
        PackError::InvalidType
    );
}

#[test]
fn parse_type_fixed_bytes() {
    assert!(matches!(parse_type("bytes1"), Ok(TypeDescriptor::FixedBytes(1))));
    assert!(matches!(parse_type("bytes32"), Ok(TypeDescriptor::FixedBytes(32))));
    assert_eq!(parse_type("bytes0").unwrap_err(), PackError::InvalidType);
    assert_eq!(parse_type("bytes33").unwrap_err(), PackError::InvalidType);
}

#[test]
fn parse_type_arrays() {
    match parse_type("address[2]") {
        Ok(TypeDescriptor::Array(elem, len)) => {
            assert!(matches!(*elem, TypeDescriptor::Address));
            assert_eq!(len, Some(2));
        }
        other => panic!("unexpected parse: {:?}", other.is_ok()),
    }
    match parse_type("uint8[2][]") {
        Ok(TypeDescriptor::Array(elem, len)) => {
            assert!(matches!(*elem, TypeDescriptor::Array(_, Some(2))));
            assert_eq!(len, None);
        }
        other => panic!("unexpected parse: {:?}", other.is_ok()),
    }
    assert_eq!(parse_type("[2]").unwrap_err(), PackError::InvalidType);
    assert_eq!(parse_type("frob[2]").unwrap_err(), PackError::InvalidType);
}

#[test]
fn parse_big_int_literals() {
    let v = parse_big_int("4660").unwrap();
    assert!(!v.negative);
    assert_eq!(v.magnitude, vec![0x12u8, 0x34u8]);
    let n = parse_big_int("-255").unwrap();
    assert!(n.negative);
    assert_eq!(n.magnitude, vec![0xffu8]);
    let z = parse_big_int("0").unwrap();
    assert!(!z.negative);
    assert_eq!(z.magnitude, Vec::<u8>::new());
    let mz = parse_big_int("-0").unwrap();
    assert!(!mz.negative);
    let p = parse_big_int("+7").unwrap();
    assert!(!p.negative);
    assert_eq!(p.magnitude, vec![7u8]);
    assert_eq!(parse_big_int("").unwrap_err(), PackError::InvalidNumeric);
    assert_eq!(parse_big_int("-").unwrap_err(), PackError::InvalidNumeric);
    assert_eq!(parse_big_int("1x2").unwrap_err(), PackError::InvalidNumeric);
}

#[test]
fn unsigned_encoding_bounds() {
    let v = parse_big_int("256").unwrap();
    assert_eq!(
        encode_unsigned(&v, 1).unwrap_err(),
        PackError::NumericOverflow
    );
    assert_eq!(encode_unsigned(&v, 2).unwrap(), vec![0x01u8, 0x00u8]);
}

#[test]
fn twos_complement_encoding() {
    let minus_one = parse_big_int("-1").unwrap();
    assert_eq!(encode_twos_complement(&minus_one, 8).unwrap(), vec![0xffu8]);
    assert_eq!(
        encode_twos_complement(&minus_one, 16).unwrap(),
        vec![0xffu8, 0xffu8]
    );
    let min8 = parse_big_int("-128").unwrap();
    assert_eq!(encode_twos_complement(&min8, 8).unwrap(), vec![0x80u8]);
    let below = parse_big_int("-129").unwrap();
    assert_eq!(
        encode_twos_complement(&below, 8).unwrap_err(),
        PackError::NumericOverflow
    );
    let top = parse_big_int("127").unwrap();
    assert_eq!(encode_twos_complement(&top, 8).unwrap(), vec![0x7fu8]);
    let over = parse_big_int("128").unwrap();
    assert_eq!(
        encode_twos_complement(&over, 8).unwrap_err(),
        PackError::NumericOverflow
    );
    let minus_300 = parse_big_int("-300").unwrap();
    assert_eq!(
        encode_twos_complement(&minus_300, 16).unwrap(),
        vec![0xfeu8, 0xd4u8]
    );
}
