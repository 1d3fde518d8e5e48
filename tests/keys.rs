use web_apis_in_rust::{KeyError, KeyStore};

#[test]
fn issued_key_is_valid() {
    let mut store = KeyStore::new();
    let key = store.issue().unwrap();
    assert!(store.validate(&key));
}

#[test]
fn keys_are_decimal_counter_values() {
    let mut store = KeyStore::new();
    let mut keys = Vec::new();
    for _ in 0..12 {
        keys.push(store.issue().unwrap());
    }
    assert_eq!(keys[0], "0");
    assert_eq!(keys[1], "1");
    assert_eq!(keys[10], "10");
    assert_eq!(keys[11], "11");
}

#[test]
fn issued_keys_are_distinct_and_all_valid() {
    let mut store = KeyStore::new();
    let mut keys: Vec<String> = Vec::new();
    for _ in 0..50 {
        keys.push(store.issue().unwrap());
    }
    for (i, a) in keys.iter().enumerate() {
        assert!(store.validate(a));
        for b in keys.iter().skip(i + 1) {
            assert_ne!(a, b);
        }
    }
}

#[test]
fn never_issued_key_is_invalid() {
    let mut store = KeyStore::new();
    assert!(!store.validate("1234"));
    assert!(!store.validate(""));
    store.issue().unwrap();
    assert!(!store.validate("1234"));
    assert!(!store.validate("00"));
}

#[test]
fn revoked_key_is_invalid() {
    let mut store = KeyStore::new();
    let key = store.issue().unwrap();
    let other = store.issue().unwrap();
    assert_eq!(store.revoke(&key), Ok(()));
    assert!(!store.validate(&key));
    assert!(store.validate(&other));
}

#[test]
fn revoking_twice_succeeds_once() {
    let mut store = KeyStore::new();
    let key = store.issue().unwrap();
    assert_eq!(store.revoke(&key), Ok(()));
    assert_eq!(store.revoke(&key), Err(KeyError::NotFound));
}

#[test]
fn revoking_unknown_key_is_not_found() {
    let mut store = KeyStore::new();
    store.issue().unwrap();
    assert_eq!(store.revoke("nope"), Err(KeyError::NotFound));
    assert!(store.validate("0"));
}

#[test]
fn revoked_key_is_not_issued_again() {
    let mut store = KeyStore::new();
    let first = store.issue().unwrap();
    store.revoke(&first).unwrap();
    let second = store.issue().unwrap();
    assert_ne!(first, second);
    assert!(!store.validate(&first));
    assert!(store.validate(&second));
}

#[test]
fn issuance_needs_no_credential() {
    let mut store = KeyStore::new();
    assert!(store.issue().is_ok());
}
