use x3dh::keys::{EphemeralX25519Keypair, OneTimePreKey, SignedPrekey};
use x3dh::prekey_bundle::PrekeyBundle;
use x3dh::prekey_pool::PrekeyPool;
use x3dh::sig_compute::SigCompute;
use x3dh::types::{
    Ed25519Signature, SharedSecret, Timestamp, X25519PublicKey, X25519Secret, X3dhError,
};
use x3dh::xxxdh::X3DH;

fn fixed_signature(_message: &[u8]) -> Result<Ed25519Signature, X3dhError> {
    Ok(Ed25519Signature { bytes: [7u8; 64] })
}

fn moment() -> Timestamp {
    Timestamp { seconds: (1u64 << 62) + 1_700_000_000, nanos: 5 }
}

/// A party whose every secret is fixed by `seed`.
fn party(seed: u8) -> X3DH {
    let signed = SignedPrekey::from_secret(
        X25519Secret::from_bytes([seed + 1; 32]),
        moment(),
        fixed_signature,
    )
    .unwrap();
    let mut one_time = Vec::new();
    for i in 0..10u8 {
        one_time.push(OneTimePreKey::from_secret(
            X25519Secret::from_bytes([seed + 2 + i; 32]),
            moment(),
        ));
    }
    X3DH::assemble(
        X25519Secret::from_bytes([seed; 32]),
        moment(),
        PrekeyPool::from_keys(signed, one_time),
    )
}

fn public_of(byte: u8) -> X25519PublicKey {
    X25519Secret::from_bytes([byte; 32]).public_key()
}

#[test]
fn both_parties_derive_the_same_secret() {
    let mut a = X3DH::new(SigCompute::sign).unwrap();
    let mut b = X3DH::new(SigCompute::sign).unwrap();

    let a_bundle = a.prekey_bundle().unwrap();
    let e_b = b.new_ephemeral_key(a.ik());

    let secret_b = b.dh_ephemeral1(&a_bundle).unwrap();
    let secret_a = a.dh_ephemeral2(&b.ik(), &e_b, &a_bundle.opk).unwrap();

    assert_eq!(secret_a, secret_b);
    assert_eq!(secret_a.to_bytes(), secret_b.to_bytes());
    let next = a.prekey_bundle().unwrap();
    assert_ne!(next.opk, a_bundle.opk);
}

#[test]
fn fixed_parties_derive_the_same_secret_in_both_directions() {
    let mut a = party(10);
    let mut b = party(60);

    let a_bundle = a.prekey_bundle().unwrap();
    let b_bundle = b.prekey_bundle().unwrap();

    let e_b = b.new_ephemeral_key(a.ik());
    let from_b = b.dh_ephemeral1(&a_bundle).unwrap();
    let at_a = a.dh_ephemeral2(&b.ik(), &e_b, &a_bundle.opk).unwrap();
    assert_eq!(from_b, at_a);

    let e_a = a.new_ephemeral_key(b.ik());
    let from_a = a.dh_ephemeral1(&b_bundle).unwrap();
    let at_b = b.dh_ephemeral2(&a.ik(), &e_a, &b_bundle.opk).unwrap();
    assert_eq!(from_a, at_b);

    assert_ne!(from_a, from_b);
}

#[test]
fn the_digest_is_the_hash_of_the_four_exchanges_in_order() {
    let mut a = party(10);
    let mut b = party(60);
    let a_bundle = a.prekey_bundle().unwrap();
    let ephemeral = [99u8; 32];
    let e_b = b.hold_ephemeral_key(EphemeralX25519Keypair::from_secret(
        a.ik(),
        X25519Secret::from_bytes(ephemeral),
        moment(),
    ));
    assert_eq!(e_b, public_of(99));
    let derived = b.dh_ephemeral1(&a_bundle).unwrap();

    let identity = x25519_dalek::StaticSecret::from([60u8; 32]);
    let ephemeral = x25519_dalek::StaticSecret::from(ephemeral);
    let ik = x25519_dalek::PublicKey::from(a_bundle.ik.bytes);
    let spk = x25519_dalek::PublicKey::from(a_bundle.spk.bytes);
    let opk = x25519_dalek::PublicKey::from(a_bundle.opk.bytes);
    let mut all = Vec::new();
    all.extend_from_slice(identity.diffie_hellman(&spk).as_bytes());
    all.extend_from_slice(ephemeral.diffie_hellman(&ik).as_bytes());
    all.extend_from_slice(ephemeral.diffie_hellman(&spk).as_bytes());
    all.extend_from_slice(ephemeral.diffie_hellman(&opk).as_bytes());
    assert_eq!(derived.to_bytes(), *blake3::hash(&all).as_bytes());

    let at_a = a.dh_ephemeral2(&b.ik(), &e_b, &a_bundle.opk).unwrap();
    assert_eq!(at_a.to_bytes(), *blake3::hash(&all).as_bytes());
}

#[test]
fn a_fixed_handshake_gives_a_fixed_digest() {
    let mut a = party(10);
    let mut b = party(60);
    assert_eq!(
        a.shared_secret().to_hex(),
        "2ada83c1819a5372dae1238fc1ded123c8104fdaa15862aaee69428a1820fcda"
    );
    let a_bundle = a.prekey_bundle().unwrap();
    let b_bundle = b.prekey_bundle().unwrap();
    assert_eq!(
        a_bundle.ik.to_hex(),
        "f77ff4b10788bfdca62ca0bb160d427cf5762d85f2b5cad6807ec9c3febbde09"
    );
    let e_b = b.hold_ephemeral_key(EphemeralX25519Keypair::from_secret(
        a.ik(),
        X25519Secret::from_bytes([99u8; 32]),
        moment(),
    ));
    assert_eq!(
        e_b.to_hex(),
        "815fb6314405e007d04ed215c223d5cd4b799d07bb7189ad10dbf324ea534271"
    );
    let expected = "03407a1ee4012f95afb204e60822be31249496c5011c936c6feaa319272515d3";
    assert_eq!(b.dh_ephemeral1(&a_bundle).unwrap().to_hex(), expected);
    assert_eq!(
        a.dh_ephemeral2(&b.ik(), &e_b, &a_bundle.opk).unwrap().to_hex(),
        expected
    );
    assert_eq!(
        a.dh_static1(b_bundle).shared_secret().to_hex(),
        "945dad11101cd4e81bad84fa5d7bf3abddabed73ba8a1d39bdda023318d24382"
    );
    assert_eq!(
        b.dh_static2(a_bundle).shared_secret().to_hex(),
        "945dad11101cd4e81bad84fa5d7bf3abddabed73ba8a1d39bdda023318d24382"
    );
}

#[test]
fn a_wrong_peer_identity_changes_the_digest() {
    let mut a = party(10);
    let mut b = party(60);
    let a_bundle = a.prekey_bundle().unwrap();
    let e_b = b.new_ephemeral_key(a.ik());
    let right = b.dh_ephemeral1(&a_bundle).unwrap();
    let wrong = a.dh_ephemeral2(&public_of(200), &e_b, &a_bundle.opk).unwrap();
    assert_ne!(right, wrong);
}

#[test]
fn a_wrong_ephemeral_key_changes_the_digest() {
    let mut a = party(10);
    let mut b = party(60);
    let a_bundle = a.prekey_bundle().unwrap();
    let _e_b = b.new_ephemeral_key(a.ik());
    let right = b.dh_ephemeral1(&a_bundle).unwrap();
    let wrong = a.dh_ephemeral2(&b.ik(), &public_of(201), &a_bundle.opk).unwrap();
    assert_ne!(right, wrong);
}

#[test]
fn a_wrong_signed_prekey_changes_the_digest() {
    let a = party(10);
    let mut b = party(60);
    let a_bundle = a.prekey_bundle().unwrap();
    b.hold_ephemeral_key(EphemeralX25519Keypair::from_secret(
        a.ik(),
        X25519Secret::from_bytes([99u8; 32]),
        moment(),
    ));
    let right = b.dh_ephemeral1(&a_bundle).unwrap();
    let forged = PrekeyBundle { spk: public_of(202), ..a_bundle };
    let wrong = b.dh_ephemeral1(&forged).unwrap();
    assert_ne!(right, wrong);
}

#[test]
fn a_wrong_one_time_prekey_changes_the_digest() {
    let mut a = party(10);
    let mut b = party(60);
    let a_bundle = a.prekey_bundle().unwrap();
    let e_b = b.new_ephemeral_key(a.ik());
    let right = b.dh_ephemeral1(&a_bundle).unwrap();
    let other = public_of(10 + 2 + 3);
    assert_ne!(other, a_bundle.opk);
    let wrong = a.dh_ephemeral2(&b.ik(), &e_b, &other).unwrap();
    assert_ne!(right, wrong);
    let forged = PrekeyBundle { opk: other, ..a_bundle };
    assert_eq!(b.dh_ephemeral1(&forged).unwrap(), wrong);
}

#[test]
fn a_wrong_bundle_identity_with_its_own_ephemeral_key_changes_the_digest() {
    let a = party(10);
    let mut b = party(60);
    let a_bundle = a.prekey_bundle().unwrap();
    let stranger = public_of(203);
    for peer in [a.ik(), stranger] {
        b.hold_ephemeral_key(EphemeralX25519Keypair::from_secret(
            peer,
            X25519Secret::from_bytes([99u8; 32]),
            moment(),
        ));
    }
    let right = b.dh_ephemeral1(&a_bundle).unwrap();
    let forged = PrekeyBundle { ik: stranger, ..a_bundle };
    let wrong = b.dh_ephemeral1(&forged).unwrap();
    assert_ne!(right, wrong);
}

#[test]
fn initiator_without_an_ephemeral_key_gets_key_not_found() {
    let a = party(10);
    let mut b = party(60);
    let a_bundle = a.prekey_bundle().unwrap();
    assert_eq!(b.dh_ephemeral1(&a_bundle), Err(X3dhError::KeyNotFound));
    b.new_ephemeral_key(public_of(77));
    assert_eq!(b.dh_ephemeral1(&a_bundle), Err(X3dhError::KeyNotFound));
    b.new_ephemeral_key(a.ik());
    assert!(b.dh_ephemeral1(&a_bundle).is_ok());
}

#[test]
fn responder_with_an_unknown_one_time_prekey_gets_key_not_found() {
    let mut a = party(10);
    let mut b = party(60);
    let before = a.describe();
    let e_b = b.new_ephemeral_key(a.ik());
    let never_issued = public_of(250);
    assert_eq!(
        a.dh_ephemeral2(&b.ik(), &e_b, &never_issued),
        Err(X3dhError::KeyNotFound)
    );
    assert_eq!(a.describe(), before);
    assert_eq!(a.prekey_bundle().unwrap().opk, public_of(12));
}

#[test]
fn a_one_time_prekey_serves_one_handshake_only() {
    let mut a = party(10);
    let mut b = party(60);
    let a_bundle = a.prekey_bundle().unwrap();
    let e_b = b.new_ephemeral_key(a.ik());
    assert!(a.dh_ephemeral2(&b.ik(), &e_b, &a_bundle.opk).is_ok());
    let after_first = a.describe();
    assert_eq!(
        a.dh_ephemeral2(&b.ik(), &e_b, &a_bundle.opk),
        Err(X3dhError::KeyNotFound)
    );
    assert_eq!(a.describe(), after_first);
}

#[test]
fn a_consumed_one_time_prekey_is_never_published_again() {
    let mut a = party(10);
    let peer = public_of(60);
    let ephemeral = public_of(99);
    let mut consumed: Vec<X25519PublicKey> = Vec::new();
    for round in 0..10u8 {
        let bundle = a.prekey_bundle().unwrap();
        assert_eq!(bundle.opk, public_of(12 + round));
        assert!(!consumed.contains(&bundle.opk));
        assert!(a.dh_ephemeral2(&peer, &ephemeral, &bundle.opk).is_ok());
        consumed.push(bundle.opk);
    }
    assert_eq!(a.prekey_bundle(), Err(X3dhError::PoolExhausted));
    for key in consumed {
        assert_eq!(
            a.dh_ephemeral2(&peer, &ephemeral, &key),
            Err(X3dhError::KeyNotFound)
        );
    }
    assert_eq!(a.prekey_bundle(), Err(X3dhError::PoolExhausted));
}

#[test]
fn keys_may_be_consumed_out_of_order() {
    let mut a = party(10);
    let peer = public_of(60);
    let ephemeral = public_of(99);
    assert!(a.dh_ephemeral2(&peer, &ephemeral, &public_of(14)).is_ok());
    assert_eq!(a.prekey_bundle().unwrap().opk, public_of(12));
    assert!(a.dh_ephemeral2(&peer, &ephemeral, &public_of(12)).is_ok());
    assert_eq!(a.prekey_bundle().unwrap().opk, public_of(13));
    assert!(a.dh_ephemeral2(&peer, &ephemeral, &public_of(13)).is_ok());
    assert_eq!(a.prekey_bundle().unwrap().opk, public_of(15));
}

#[test]
fn a_fresh_party_publishes_what_it_holds() {
    let a = party(10);
    let bundle = a.prekey_bundle().unwrap();
    assert_eq!(bundle.ik, public_of(10));
    assert_eq!(bundle.ik, a.ik());
    assert_eq!(bundle.spk, public_of(11));
    assert_eq!(bundle.spk_signature, Ed25519Signature { bytes: [7u8; 64] });
    assert_eq!(bundle.opk, public_of(12));
    assert_eq!(a.prekey_bundle().unwrap(), bundle);
}

#[test]
fn a_new_party_starts_with_ten_unused_one_time_prekeys() {
    let mut a = X3DH::new(SigCompute::sign).unwrap();
    let peer = public_of(60);
    let ephemeral = public_of(99);
    let mut seen: Vec<X25519PublicKey> = Vec::new();
    for _ in 0..10 {
        let bundle = a.prekey_bundle().unwrap();
        assert_eq!(bundle.ik, a.ik());
        assert!(!seen.contains(&bundle.opk));
        seen.push(bundle.opk);
        assert!(a.dh_ephemeral2(&peer, &ephemeral, &bundle.opk).is_ok());
    }
    assert_eq!(a.prekey_bundle(), Err(X3dhError::PoolExhausted));
}

#[test]
fn a_failing_signer_gives_signature_computation_failure() {
    let refuse = |_message: &[u8]| -> Result<Ed25519Signature, X3dhError> {
        Err(X3dhError::KeyNotFound)
    };
    assert!(matches!(
        X3DH::new(refuse),
        Err(X3dhError::SignatureComputationFailure)
    ));
    assert!(matches!(
        PrekeyPool::initialize(refuse),
        Err(X3dhError::SignatureComputationFailure)
    ));
    assert!(matches!(
        SignedPrekey::new(refuse),
        Err(X3dhError::SignatureComputationFailure)
    ));
    assert!(matches!(
        SignedPrekey::from_secret(X25519Secret::from_bytes([1u8; 32]), moment(), refuse),
        Err(X3dhError::SignatureComputationFailure)
    ));
}

#[test]
fn the_signer_is_asked_to_sign_the_signed_prekey() {
    let echo = |message: &[u8]| -> Result<Ed25519Signature, X3dhError> {
        let mut bytes = [0u8; 64];
        bytes[..32].copy_from_slice(message);
        Ok(Ed25519Signature { bytes })
    };
    let key = SignedPrekey::from_secret(X25519Secret::from_bytes([11u8; 32]), moment(), echo)
        .unwrap();
    assert_eq!(key.prekey(), public_of(11));
    assert_eq!(key.signature().bytes[..32], public_of(11).bytes);
    assert_eq!(key.signature().bytes[32..], [0u8; 32]);
    assert_eq!(key.timestamp(), moment());
}

#[test]
fn a_second_initiation_replaces_the_ephemeral_key() {
    let a = party(10);
    let mut b = party(60);
    let a_bundle = a.prekey_bundle().unwrap();
    let first = b.hold_ephemeral_key(EphemeralX25519Keypair::from_secret(
        a.ik(),
        X25519Secret::from_bytes([98u8; 32]),
        moment(),
    ));
    let with_first = b.dh_ephemeral1(&a_bundle).unwrap();
    let second = b.hold_ephemeral_key(EphemeralX25519Keypair::from_secret(
        a.ik(),
        X25519Secret::from_bytes([99u8; 32]),
        moment(),
    ));
    assert_ne!(first, second);
    let with_second = b.dh_ephemeral1(&a_bundle).unwrap();
    assert_ne!(with_first, with_second);

    let mut a = a;
    assert_eq!(
        a.dh_ephemeral2(&b.ik(), &second, &a_bundle.opk).unwrap(),
        with_second
    );
}

#[test]
fn fresh_ephemeral_keys_differ() {
    let mut b = party(60);
    let peer = public_of(10);
    let first = b.new_ephemeral_key(peer);
    let second = b.new_ephemeral_key(peer);
    assert_ne!(first, second);
}

#[test]
fn completing_as_initiator_leaves_the_party_as_it_is() {
    let a = party(10);
    let mut b = party(60);
    let a_bundle = a.prekey_bundle().unwrap();
    b.new_ephemeral_key(a.ik());
    let before = b.describe();
    let first = b.dh_ephemeral1(&a_bundle).unwrap();
    let second = b.dh_ephemeral1(&a_bundle).unwrap();
    assert_eq!(first, second);
    assert_eq!(b.describe(), before);
    assert_eq!(b.prekey_bundle().unwrap().opk, public_of(62));
}

#[test]
fn the_identity_binding_exchange_agrees() {
    let mut a = party(10);
    let mut b = party(60);
    let a_bundle = a.prekey_bundle().unwrap();
    let b_bundle = b.prekey_bundle().unwrap();
    let blank = SharedSecret::from_bytes(*blake3::hash(&[0u8; 32]).as_bytes());
    assert_eq!(a.shared_secret(), blank);
    assert_eq!(b.shared_secret(), blank);

    let at_a = a.dh_static1(b_bundle).shared_secret();
    let at_b = b.dh_static2(a_bundle).shared_secret();
    assert_eq!(at_a, at_b);
    assert_eq!(a.shared_secret(), at_a);
    assert_ne!(at_a, blank);

    let identity = x25519_dalek::StaticSecret::from([10u8; 32]);
    let spk = x25519_dalek::PublicKey::from(b_bundle.spk.bytes);
    assert_eq!(
        at_a.to_bytes(),
        *blake3::hash(identity.diffie_hellman(&spk).as_bytes()).as_bytes()
    );
    assert_eq!(a.prekey_bundle().unwrap(), a_bundle);
}

#[test]
fn shared_secrets_compare_by_their_bytes() {
    let mut bytes = [3u8; 32];
    let one = SharedSecret::from_bytes(bytes);
    assert_eq!(one, SharedSecret::from_bytes(bytes));
    bytes[31] = 4;
    assert_ne!(one, SharedSecret::from_bytes(bytes));
    assert_eq!(one.to_bytes(), [3u8; 32]);
}
