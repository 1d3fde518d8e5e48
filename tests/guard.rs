use web_apis_in_rust::{authorize, serve_counted, AuthDecision, Counters, KeyStore, Operation, Subscriber};

#[test]
fn valid_key_is_authorized() {
    let mut store = KeyStore::new();
    let key = store.issue().unwrap();
    assert_eq!(authorize(&store, Some(&key)), AuthDecision::Authorized);
}

#[test]
fn missing_or_unknown_credential_is_unauthorized() {
    let mut store = KeyStore::new();
    store.issue().unwrap();
    assert_eq!(authorize(&store, None), AuthDecision::Unauthorized);
    assert_eq!(authorize(&store, Some("not-a-key")), AuthDecision::Unauthorized);
}

#[test]
fn revoked_credential_is_unauthorized() {
    let mut store = KeyStore::new();
    let key = store.issue().unwrap();
    store.revoke(&key).unwrap();
    assert_eq!(authorize(&store, Some(&key)), AuthDecision::Unauthorized);
}

#[test]
fn rejected_requests_are_not_counted() {
    let mut store = KeyStore::new();
    let key = store.issue().unwrap();
    store.revoke(&key).unwrap();
    let mut counters = Counters::zero();
    assert_eq!(serve_counted(&store, &mut counters, None, Operation::ToCelcius), AuthDecision::Unauthorized);
    assert_eq!(serve_counted(&store, &mut counters, Some("x"), Operation::ToCelcius), AuthDecision::Unauthorized);
    assert_eq!(serve_counted(&store, &mut counters, Some(&key), Operation::ToCelcius), AuthDecision::Unauthorized);
    assert_eq!(counters.count(Operation::ToCelcius), 0);
}

#[test]
fn authorized_requests_are_counted() {
    let mut store = KeyStore::new();
    let key = store.issue().unwrap();
    let mut counters = Counters::zero();
    assert_eq!(serve_counted(&store, &mut counters, Some(&key), Operation::ToFahrenheit), AuthDecision::Authorized);
    assert_eq!(serve_counted(&store, &mut counters, Some(&key), Operation::ToFahrenheit), AuthDecision::Authorized);
    assert_eq!(counters.count(Operation::ToFahrenheit), 2);
    assert_eq!(counters.count(Operation::ToCelcius), 0);
}

#[test]
fn subscriber_keeps_its_fields() {
    let s = Subscriber::new(String::from("Ada"), String::from("ada@example.com"));
    assert_eq!(s.name(), "Ada");
    assert_eq!(s.email(), "ada@example.com");
}
