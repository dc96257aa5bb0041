use x3dh::ephemeral::EphemeralKeyExchange;
use x3dh::keys::{EphemeralX25519Keypair, OneTimePreKey, SignedPrekey};
use x3dh::prekey_pool::{PrekeyPool, ONE_TIME_PREKEY_COUNT};
use x3dh::sig_compute::SigCompute;
use x3dh::types::{Ed25519Signature, Timestamp, X25519PublicKey, X25519Secret, X3dhError};

fn pool_signer(_message: &[u8]) -> Result<Ed25519Signature, X3dhError> {
    Ok(Ed25519Signature { bytes: [9u8; 64] })
}

fn pool_moment() -> Timestamp {
    Timestamp { seconds: 1 << 62, nanos: 0 }
}

fn public_key_of(byte: u8) -> X25519PublicKey {
    X25519Secret::from_bytes([byte; 32]).public_key()
}

fn one_time(byte: u8) -> OneTimePreKey {
    OneTimePreKey::from_secret(X25519Secret::from_bytes([byte; 32]), pool_moment())
}

fn pool_of(bytes: &[u8]) -> PrekeyPool {
    let signed = SignedPrekey::from_secret(
        X25519Secret::from_bytes([1u8; 32]),
        pool_moment(),
        pool_signer,
    )
    .unwrap();
    PrekeyPool::from_keys(signed, bytes.iter().map(|byte| one_time(*byte)).collect())
}

#[test]
fn publish_offers_the_first_unused_key() {
    let mut pool = pool_of(&[20, 21, 22]);
    let fragment = pool.publish().unwrap();
    assert_eq!(fragment.spk, public_key_of(1));
    assert_eq!(fragment.spk_signature, Ed25519Signature { bytes: [9u8; 64] });
    assert_eq!(fragment.opk, public_key_of(20));
    assert_eq!(pool.publish().unwrap().opk, public_key_of(20));
    assert!(pool.consume(&public_key_of(20)).is_ok());
    assert_eq!(pool.publish().unwrap().opk, public_key_of(21));
}

#[test]
fn publish_on_an_empty_pool_is_exhausted() {
    let pool = pool_of(&[]);
    assert!(matches!(pool.publish(), Err(X3dhError::PoolExhausted)));
}

#[test]
fn publish_after_the_last_key_is_exhausted() {
    let mut pool = pool_of(&[20, 21]);
    assert!(pool.consume(&public_key_of(21)).is_ok());
    assert!(pool.consume(&public_key_of(20)).is_ok());
    assert!(matches!(pool.publish(), Err(X3dhError::PoolExhausted)));
    assert!(matches!(pool.publish(), Err(X3dhError::PoolExhausted)));
}

#[test]
fn consume_hands_out_the_secret_of_the_key() {
    let mut pool = pool_of(&[20, 21, 22]);
    let peer = public_key_of(70);
    let expected = X25519Secret::from_bytes([21u8; 32]).diffie_hellman(&peer);
    let secret = pool.consume(&public_key_of(21)).unwrap();
    assert_eq!(secret.diffie_hellman(&peer), expected);
    assert_eq!(secret.public_key(), public_key_of(21));
}

#[test]
fn consume_of_an_unknown_key_is_key_not_found() {
    let mut pool = pool_of(&[20, 21, 22]);
    assert!(matches!(
        pool.consume(&public_key_of(23)),
        Err(X3dhError::KeyNotFound)
    ));
    assert_eq!(pool.publish().unwrap().opk, public_key_of(20));
    assert!(pool.consume(&public_key_of(20)).is_ok());
}

#[test]
fn consume_of_a_stale_key_is_key_not_found() {
    let mut pool = pool_of(&[20, 21, 22]);
    assert!(pool.consume(&public_key_of(21)).is_ok());
    let after = pool.describe();
    assert!(matches!(
        pool.consume(&public_key_of(21)),
        Err(X3dhError::KeyNotFound)
    ));
    assert_eq!(pool.describe(), after);
}

#[test]
fn keys_with_the_same_public_key_are_taken_once() {
    let mut pool = pool_of(&[20, 21, 20, 22, 21]);
    assert_eq!(pool.publish().unwrap().opk, public_key_of(20));
    assert!(pool.consume(&public_key_of(20)).is_ok());
    assert_eq!(pool.publish().unwrap().opk, public_key_of(21));
    assert!(pool.consume(&public_key_of(21)).is_ok());
    assert_eq!(pool.publish().unwrap().opk, public_key_of(22));
    assert!(pool.consume(&public_key_of(22)).is_ok());
    assert!(matches!(pool.publish(), Err(X3dhError::PoolExhausted)));
}

#[test]
fn a_fresh_pool_holds_ten_unused_keys() {
    assert_eq!(ONE_TIME_PREKEY_COUNT, 10);
    let mut pool = PrekeyPool::initialize(SigCompute::sign).unwrap();
    let mut seen: Vec<X25519PublicKey> = Vec::new();
    for _ in 0..ONE_TIME_PREKEY_COUNT {
        let fragment = pool.publish().unwrap();
        assert_eq!(fragment.spk, pool.signed_prekey().prekey());
        assert_eq!(fragment.spk_signature, pool.signed_prekey().signature());
        assert!(!seen.contains(&fragment.opk));
        seen.push(fragment.opk);
        assert!(pool.consume(&fragment.opk).is_ok());
    }
    assert!(matches!(pool.publish(), Err(X3dhError::PoolExhausted)));
}

#[test]
fn a_one_time_prekey_starts_unused() {
    let key = one_time(40);
    assert!(!key.is_stale());
    assert_eq!(key.prekey(), public_key_of(40));
    assert_eq!(key.timestamp(), pool_moment());
    let fresh = OneTimePreKey::new();
    assert!(!fresh.is_stale());
    assert!(fresh.timestamp().nanos < 1_000_000_000);
    assert_ne!(fresh.prekey(), OneTimePreKey::new().prekey());
}

#[test]
fn lookup_finds_the_pair_of_the_correspondent() {
    let mut store = EphemeralKeyExchange::new();
    let alice = public_key_of(50);
    let bob = public_key_of(51);
    assert!(matches!(store.lookup(&alice), Err(X3dhError::KeyNotFound)));

    store.store(EphemeralX25519Keypair::from_secret(
        alice,
        X25519Secret::from_bytes([80u8; 32]),
        pool_moment(),
    ));
    assert_eq!(store.lookup(&alice).unwrap().public_key(), public_key_of(80));
    assert!(matches!(store.lookup(&bob), Err(X3dhError::KeyNotFound)));

    store.store(EphemeralX25519Keypair::from_secret(
        bob,
        X25519Secret::from_bytes([81u8; 32]),
        pool_moment(),
    ));
    store.store(EphemeralX25519Keypair::from_secret(
        alice,
        X25519Secret::from_bytes([82u8; 32]),
        pool_moment(),
    ));
    assert_eq!(store.lookup(&alice).unwrap().public_key(), public_key_of(82));
    assert_eq!(store.lookup(&bob).unwrap().public_key(), public_key_of(81));
}

#[test]
fn create_returns_the_public_key_of_the_pair_it_holds() {
    let mut store = EphemeralKeyExchange::new();
    let alice = public_key_of(50);
    let first = store.create(alice);
    assert_eq!(store.lookup(&alice).unwrap().public_key(), first);
    let second = store.create(alice);
    assert_ne!(first, second);
    assert_eq!(store.lookup(&alice).unwrap().public_key(), second);
}

#[test]
fn an_ephemeral_pair_knows_its_correspondent() {
    let alice = public_key_of(50);
    let pair = EphemeralX25519Keypair::from_secret(
        alice,
        X25519Secret::from_bytes([80u8; 32]),
        pool_moment(),
    );
    assert_eq!(pair.associated_public_key(), alice);
    assert_eq!(pair.prekey(), public_key_of(80));
    assert_eq!(pair.timestamp(), pool_moment());
    let fresh = EphemeralX25519Keypair::new(alice);
    assert_eq!(fresh.associated_public_key(), alice);
    assert_ne!(fresh.prekey(), EphemeralX25519Keypair::new(alice).prekey());
}
