use nostr_sdk::ToBech32;
use nostr_wallet_connect::keys::{handle_keys, same_key, KeyError, Keys};

const SECRET: &str = "6b911fd37cdf5c81d4c0adb1ab7fa822ed253ab0ad9aa18d77257c88b29b718e";

#[test]
fn a_secret_key_in_hexadecimal_is_read() {
    let keys = Keys::parse(SECRET).unwrap();
    let expected = nostr_sdk::Keys::parse(SECRET).unwrap();
    assert_eq!(hex::encode(keys.secret_key()), SECRET);
    assert_eq!(keys.public_key(), expected.public_key().to_bytes());
    assert_ne!(keys.public_key(), keys.secret_key());
}

#[test]
fn an_nsec_is_read() {
    let expected = nostr_sdk::Keys::parse(SECRET).unwrap();
    let nsec = expected.secret_key().to_bech32().unwrap();
    assert!(nsec.starts_with("nsec1"));
    let keys = handle_keys(Some(nsec)).unwrap();
    assert_eq!(hex::encode(keys.secret_key()), SECRET);
    assert_eq!(keys.public_key(), expected.public_key().to_bytes());
}

#[test]
fn other_texts_are_no_secret_keys() {
    assert_eq!(Keys::parse("").err(), Some(KeyError::InvalidSecretKey));
    assert_eq!(handle_keys(Some("nsec".to_string())).err(), Some(KeyError::InvalidSecretKey));
    let zeros = "0".repeat(64);
    assert_eq!(handle_keys(Some(zeros)).err(), Some(KeyError::InvalidSecretKey));
}

#[test]
fn without_a_secret_key_a_fresh_one_is_made() {
    let a = handle_keys(None).unwrap();
    let b = handle_keys(None).unwrap();
    assert_ne!(a.secret_key(), b.secret_key());
    let again = Keys::parse(&hex::encode(a.secret_key())).unwrap();
    assert_eq!(again.public_key(), a.public_key());
}

#[test]
fn keys_are_compared_byte_by_byte() {
    let mut key = [7; 32];
    assert!(same_key(&key, &[7; 32]));
    key[31] = 8;
    assert!(!same_key(&key, &[7; 32]));
}
