use miniorg::store::{clear_token_in_keyring, CredentialStore};
use miniorg::token::AuthToken;

fn mock_of(store: &CredentialStore) -> &keyring::mock::MockCredential {
    store
        .entry
        .get_credential()
        .downcast_ref::<keyring::mock::MockCredential>()
        .expect("the test build uses the mock keyring store")
}

#[test]
fn set_then_get_round_trips_through_durable_storage() {
    let mut store = CredentialStore::new().unwrap();
    store.set_auth_token("tok-123".to_string(), Some(1234567890)).unwrap();
    store.invalidate_cache();
    let got = store.get_auth_token().unwrap().unwrap();
    let expected = AuthToken { token: "tok-123".to_string(), expires_at: Some(1234567890) };
    assert_eq!(got, expected);
}

#[test]
fn set_then_get_round_trips_without_expiry() {
    let mut store = CredentialStore::new().unwrap();
    store.set_auth_token("t\"quoted\\slashed".to_string(), None).unwrap();
    store.invalidate_cache();
    let got = store.get_auth_token().unwrap().unwrap();
    assert_eq!(got.token, "t\"quoted\\slashed");
    assert_eq!(got.expires_at, None);
}

#[test]
fn get_served_from_memory_after_read_through() {
    let mut store = CredentialStore::new().unwrap();
    store.set_auth_token("abc".to_string(), None).unwrap();
    let first = store.get_auth_token().unwrap().unwrap();
    let second = store.get_auth_token().unwrap().unwrap();
    assert_eq!(first, second);
}

#[test]
fn cold_start_get_returns_absent_not_error() {
    let mut store = CredentialStore::new().unwrap();
    let got = store.get_auth_token().unwrap();
    assert!(got.is_none());
}

#[test]
fn clear_is_idempotent() {
    let mut store = CredentialStore::new().unwrap();
    store.set_auth_token("abc".to_string(), Some(1)).unwrap();
    store.clear_auth_token().unwrap();
    store.clear_auth_token().unwrap();
    let got = store.get_auth_token().unwrap();
    assert!(got.is_none());
}

#[test]
fn clear_without_prior_set_succeeds() {
    let mut store = CredentialStore::new().unwrap();
    store.clear_auth_token().unwrap();
    let got = store.get_auth_token().unwrap();
    assert!(got.is_none());
}

#[test]
fn corrupt_durable_record_is_an_error_not_logout() {
    let mut store = CredentialStore::new().unwrap();
    store.entry.set_password("not a credential record").unwrap();
    let got = store.get_auth_token();
    assert_eq!(got, Err("Failed to parse stored token".to_string()));
}

#[test]
fn backend_read_failure_is_an_error_not_logout() {
    let mut store = CredentialStore::new().unwrap();
    mock_of(&store).set_error(keyring::Error::Invalid("access".to_string(), "denied".to_string()));
    let got = store.get_auth_token();
    assert!(got.is_err());
}

#[test]
fn failed_persist_leaves_memory_unchanged() {
    let mut store = CredentialStore::new().unwrap();
    store.set_auth_token("old".to_string(), None).unwrap();
    mock_of(&store).set_error(keyring::Error::Invalid("access".to_string(), "denied".to_string()));
    let r = store.set_auth_token("new".to_string(), None);
    assert!(r.is_err());
    let got = store.get_auth_token().unwrap().unwrap();
    assert_eq!(got.token, "old");
}

#[test]
fn clear_token_in_keyring_without_record_succeeds() {
    assert_eq!(clear_token_in_keyring(), Ok(()));
}
