//! Tests of the session store: registration uniqueness, at-most-once
//! consumption, expiry, and the sweep.

use zkp_auth::big::Big;
use zkp_auth::session::{ChallengeError, ConsumeError, RegisterError, SessionStore};

fn name(s: &str) -> Vec<u8> {
    s.as_bytes().to_vec()
}

fn store_with_alice() -> SessionStore {
    let mut store = SessionStore::new(60);
    store
        .register(name("alice"), Big::from_u64(2), Big::from_u64(3))
        .unwrap();
    store
}

#[test]
fn registration_is_unique() {
    let mut store = SessionStore::new(60);
    assert!(store
        .register(name("alice"), Big::from_u64(2), Big::from_u64(3))
        .is_ok());
    assert_eq!(
        store
            .register(name("alice"), Big::from_u64(5), Big::from_u64(7))
            .unwrap_err(),
        RegisterError::AlreadyRegistered
    );
    assert!(store
        .register(name("bob"), Big::from_u64(5), Big::from_u64(7))
        .is_ok());
}

#[test]
fn challenge_needs_a_registered_user() {
    let mut store = SessionStore::new(60);
    assert_eq!(
        store
            .begin_challenge(name("bob"), Big::from_u64(8), Big::from_u64(4), Big::from_u64(4), 0)
            .unwrap_err(),
        ChallengeError::UnknownUser
    );
}

#[test]
fn attempt_is_consumed_at_most_once() {
    let mut store = store_with_alice();
    let id = store
        .begin_challenge(name("alice"), Big::from_u64(8), Big::from_u64(4), Big::from_u64(4), 100)
        .unwrap();
    let attempt = store.consume_attempt(id, 110).unwrap();
    assert_eq!(attempt.attempt_id, id);
    assert_eq!(attempt.username, name("alice"));
    assert_eq!(
        store.consume_attempt(id, 110).unwrap_err(),
        ConsumeError::AttemptNotFound
    );
}

#[test]
fn concurrent_attempts_are_independent() {
    let mut store = store_with_alice();
    let first = store
        .begin_challenge(name("alice"), Big::from_u64(8), Big::from_u64(4), Big::from_u64(4), 100)
        .unwrap();
    let second = store
        .begin_challenge(name("alice"), Big::from_u64(6), Big::from_u64(18), Big::from_u64(7), 101)
        .unwrap();
    assert_ne!(first, second);
    assert!(store.consume_attempt(second, 110).is_ok());
    assert!(store.consume_attempt(first, 110).is_ok());
    assert!(store.consume_attempt(first, 110).is_err());
}

#[test]
fn attempt_expires_after_ttl() {
    let mut store = store_with_alice();
    let id = store
        .begin_challenge(name("alice"), Big::from_u64(8), Big::from_u64(4), Big::from_u64(4), 100)
        .unwrap();
    // One tick past created_at + ttl the attempt is gone for good.
    assert_eq!(
        store.consume_attempt(id, 161).unwrap_err(),
        ConsumeError::AttemptNotFound
    );
}

#[test]
fn attempt_is_live_until_the_ttl_boundary() {
    let mut store = store_with_alice();
    let id = store
        .begin_challenge(name("alice"), Big::from_u64(8), Big::from_u64(4), Big::from_u64(4), 100)
        .unwrap();
    // Exactly created_at + ttl is still within the window.
    assert!(store.consume_attempt(id, 160).is_ok());
}

#[test]
fn sweep_removes_only_expired_attempts() {
    let mut store = SessionStore::new(50);
    store
        .register(name("alice"), Big::from_u64(2), Big::from_u64(3))
        .unwrap();
    let old_id = store
        .begin_challenge(name("alice"), Big::from_u64(8), Big::from_u64(4), Big::from_u64(4), 0)
        .unwrap();
    let live_id = store
        .begin_challenge(name("alice"), Big::from_u64(6), Big::from_u64(18), Big::from_u64(7), 100)
        .unwrap();
    store.sweep_expired(120);
    assert_eq!(store.attempts.len(), 1);
    assert!(store.consume_attempt(old_id, 120).is_err());
    assert!(store.consume_attempt(live_id, 120).is_ok());
}
