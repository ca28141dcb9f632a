use notify_sessions::keyring::{access_decision, fail_closed, AuthError, Keyring, SessionToken, TOKEN_ENTROPY_LEN};
use notify_sessions::store::{KeyStorage, MemoryStore, StoreError};

fn keyring(ttl: u64) -> Keyring<MemoryStore> {
    Keyring::new(MemoryStore::new(), ttl)
}

#[test]
fn login_validate_logout_scenario() {
    let mut ring = keyring(3600);
    let t1 = ring.login("a@example.com", 100).unwrap();
    assert_eq!(ring.validate(&t1, 101), Some("a@example.com".to_string()));
    assert!(ring.logout(&t1).is_ok());
    assert_eq!(ring.validate(&t1, 102), None);
    let t2 = ring.login("a@example.com", 103).unwrap();
    assert_ne!(t1.as_bytes(), t2.as_bytes());
    assert_eq!(ring.validate(&t2, 104), Some("a@example.com".to_string()));
}

#[test]
fn validate_holds_until_expiry() {
    let mut ring = keyring(60);
    let t = ring.login("b@example.com", 1000).unwrap();
    assert_eq!(ring.validate(&t, 1000), Some("b@example.com".to_string()));
    assert_eq!(ring.validate(&t, 1059), Some("b@example.com".to_string()));
    assert_eq!(ring.validate(&t, 1060), None);
    assert_eq!(ring.validate(&t, 5000), None);
}

#[test]
fn second_logout_is_no_error() {
    let mut ring = keyring(60);
    let t = ring.login("c@example.com", 0).unwrap();
    assert_eq!(ring.logout(&t), Ok(()));
    assert_eq!(ring.logout(&t), Ok(()));
    assert_eq!(ring.validate(&t, 1), None);
}

#[test]
fn logout_of_unknown_token_is_no_error() {
    let mut ring = keyring(60);
    let t = SessionToken::from_text(b"deadbeef".to_vec());
    assert_eq!(ring.logout(&t), Ok(()));
}

#[test]
fn repeated_validation_agrees() {
    let mut ring = keyring(600);
    let t = ring.login("d@example.com", 10).unwrap();
    let answers: Vec<Option<String>> = (0..16).map(|_| ring.validate(&t, 20)).collect();
    for a in answers {
        assert_eq!(a, Some("d@example.com".to_string()));
    }
}

#[test]
fn logout_leaves_other_sessions() {
    let mut ring = keyring(600);
    let ta = ring.login("a@example.com", 0).unwrap();
    let tb = ring.login("b@example.com", 0).unwrap();
    ring.logout(&ta).unwrap();
    assert_eq!(ring.validate(&ta, 1), None);
    assert_eq!(ring.validate(&tb, 1), Some("b@example.com".to_string()));
}

#[test]
fn login_with_entropy_gives_hex_token() {
    let mut ring = keyring(600);
    let t = ring.login_with_entropy("e@example.com", &[0xab, 0x01, 0xff], 5).unwrap();
    assert_eq!(t.as_bytes(), b"ab01ff");
    let same = SessionToken::from_text(b"ab01ff".to_vec());
    assert_eq!(ring.validate(&same, 6), Some("e@example.com".to_string()));
}

#[test]
fn issued_token_is_lowercase_hex() {
    let mut ring = keyring(600);
    let t = ring.login("f@example.com", 0).unwrap();
    assert_eq!(t.as_bytes().len(), 2 * TOKEN_ENTROPY_LEN);
    assert!(t.as_bytes().iter().all(|c| c.is_ascii_digit() || (b'a'..=b'f').contains(c)));
}

#[test]
fn relogin_with_same_entropy_overwrites() {
    let mut ring = keyring(600);
    ring.login_with_entropy("old@example.com", &[1, 2], 0).unwrap();
    let t = ring.login_with_entropy("new@example.com", &[1, 2], 0).unwrap();
    assert_eq!(ring.validate(&t, 1), Some("new@example.com".to_string()));
}

#[test]
fn authenticate_without_cookie_is_refused() {
    let mut ring = keyring(600);
    assert_eq!(ring.authenticate(None, 0), Err(AuthError::AuthenticationFailed));
}

#[test]
fn authenticate_with_unknown_cookie_is_refused() {
    let mut ring = keyring(600);
    let t = SessionToken::from_text(b"00".to_vec());
    assert_eq!(ring.authenticate(Some(&t), 0), Err(AuthError::AuthenticationFailed));
}

#[test]
fn authenticate_with_live_cookie_yields_identity() {
    let mut ring = keyring(600);
    let t = ring.login("g@example.com", 0).unwrap();
    assert_eq!(ring.authenticate(Some(&t), 1), Ok("g@example.com".to_string()));
    assert_eq!(ring.authenticate(Some(&t), 600), Err(AuthError::AuthenticationFailed));
}

#[test]
fn store_failure_denies_validation() {
    assert_eq!(fail_closed(Err(StoreError::Unavailable)), None);
    assert_eq!(fail_closed(Ok(Some("h@example.com".to_string()))), Some("h@example.com".to_string()));
    assert_eq!(fail_closed(Ok(None)), None);
}

#[test]
fn store_failure_denies_access() {
    assert_eq!(access_decision(Err(StoreError::Unavailable)), Err(AuthError::StoreUnavailable));
    assert_eq!(access_decision(Ok(None)), Err(AuthError::AuthenticationFailed));
    assert_eq!(access_decision(Ok(Some("i@example.com".to_string()))), Ok("i@example.com".to_string()));
}

#[test]
fn memory_store_put_get_delete() {
    let mut store = MemoryStore::new();
    assert_eq!(store.get(b"k1", 0), Ok(None));
    assert_eq!(store.put(b"k1", "j@example.com", 10, 0), Ok(()));
    assert_eq!(store.get(b"k1", 9), Ok(Some("j@example.com".to_string())));
    assert_eq!(store.get(b"k1", 10), Ok(None));
    assert_eq!(store.get(b"k2", 0), Ok(None));
    assert_eq!(store.delete(b"k1"), Ok(()));
    assert_eq!(store.get(b"k1", 0), Ok(None));
    assert_eq!(store.delete(b"k1"), Ok(()));
}

#[test]
fn memory_store_expiry_saturates() {
    let mut store = MemoryStore::new();
    store.put(b"k", "k@example.com", u64::MAX, 5).unwrap();
    assert_eq!(store.get(b"k", u64::MAX - 1), Ok(Some("k@example.com".to_string())));
    assert_eq!(store.get(b"k", u64::MAX), Ok(None));
}
