use paqus_wallet::keys::{
    parse_address_hex, parse_secret_key, public_key_matches, signed_transaction_to_hex,
    tx_request_body, KeyError,
};

#[test]
fn secret_keys_from_hex() {
    assert_eq!(parse_secret_key(None, 2), Err(KeyError::Missing));
    let good = "0aFf".to_string();
    assert_eq!(parse_secret_key(Some(&good), 2), Ok(vec![0x0a, 0xff]));
    assert_eq!(parse_secret_key(Some(&good), 3), Err(KeyError::InvalidLength));
    let odd = "abc".to_string();
    assert_eq!(parse_secret_key(Some(&odd), 2), Err(KeyError::InvalidHex));
    let bad = "zz".to_string();
    assert_eq!(parse_secret_key(Some(&bad), 1), Err(KeyError::InvalidHex));
    let wide = "éé".to_string();
    assert_eq!(parse_secret_key(Some(&wide), 2), Err(KeyError::InvalidHex));
}

#[test]
fn addresses_from_hex() {
    assert_eq!(parse_address_hex("00112233", 4), Ok(vec![0, 0x11, 0x22, 0x33]));
    assert_eq!(parse_address_hex("", 0), Ok(vec![]));
    assert_eq!(parse_address_hex("0011", 4), Err(KeyError::InvalidLength));
    assert_eq!(parse_address_hex("pq1abc", 3), Err(KeyError::InvalidHex));
}

#[test]
fn hex_of_transactions() {
    assert_eq!(signed_transaction_to_hex(&[0, 1, 0xab, 0xff]), "0001abff");
    assert_eq!(signed_transaction_to_hex(&[]), "");
    assert_eq!(tx_request_body(&[0xde, 0xad]), "{\"tx\":\"dead\"}");
    assert!(public_key_matches(&[0xab, 0x01], "ab01"));
    assert!(!public_key_matches(&[0xab, 0x01], "AB01"));
    assert!(!public_key_matches(&[0xab], "ab01"));
}

#[test]
fn hex_round_trip() {
    let bytes: Vec<u8> = (0u8..=255).collect();
    let text = signed_transaction_to_hex(&bytes);
    assert_eq!(parse_address_hex(&text, 256), Ok(bytes));
}
