use eth_wrapper::amount::to_eth;
use eth_wrapper::wrap_types::{ArgsToEth, ArgsToWei};

#[test]
fn parse_to_eth_integer() {
    assert_eq!(to_eth("1000000000000000000".to_string()), "1".to_string())
}

#[test]
#[should_panic = "Invalid Wei number: 10000000000.00000000"]
fn parse_to_eth_not_accepted_decimal() {
    eth_wrapper::wrapped::to_eth(ArgsToEth {
        wei: "10000000000.00000000".to_string(),
    })
    .unwrap();
}

#[test]
fn parse_to_decimal() {
    assert_eq!(to_eth("1000000000000000".to_string()), "0.001".to_string())
}

#[test]
fn parse_to_decimal_with_zeros_in_between() {
    assert_eq!(
        to_eth("1004000000000000".to_string()),
        "0.001004".to_string()
    )
}

#[test]
fn to_eth_zero_wei() {
    assert_eq!(to_eth("0".to_string()), "0".to_string());
}

#[test]
fn to_eth_trailing_zero_ether() {
    assert_eq!(to_eth("10000000000000000000".to_string()), "10".to_string());
}

#[test]
fn to_eth_sub_attoether_boundary() {
    assert_eq!(to_eth("1".to_string()), "0.000000000000000001".to_string());
}

#[test]
fn to_wei_whole_ether() {
    let r = eth_wrapper::wrapped::to_wei(ArgsToWei {
        eth: "1".to_string(),
    });
    assert_eq!(r.unwrap(), "1000000000000000000".to_string());
}

#[test]
fn to_wei_fractional_ether() {
    let r = eth_wrapper::wrapped::to_wei(ArgsToWei {
        eth: "0.001".to_string(),
    });
    assert_eq!(r.unwrap(), "1000000000000000".to_string());
}

#[test]
fn to_wei_mixed_amount() {
    let r = eth_wrapper::wrapped::to_wei(ArgsToWei {
        eth: "15.230001000000000000".to_string(),
    });
    assert_eq!(r.unwrap(), "15230001000000000000".to_string());
}

#[test]
fn to_wei_rejects_two_points() {
    let r = eth_wrapper::wrapped::to_wei(ArgsToWei {
        eth: "1.2.3".to_string(),
    });
    assert!(r.is_err());
}

#[test]
fn to_wei_rejects_empty() {
    let r = eth_wrapper::wrapped::to_wei(ArgsToWei {
        eth: "".to_string(),
    });
    assert!(r.is_err());
}

#[test]
fn to_wei_drops_places_beyond_eighteen() {
    let r = eth_wrapper::wrapped::to_wei(ArgsToWei {
        eth: "0.0000000000000000019".to_string(),
    });
    assert_eq!(r.unwrap(), "1".to_string());
}
