//! The Diffie-Hellman chain and the digest it is folded into.
//!
//! A handshake runs four exchanges in a fixed order and hashes their outputs,
//! in that order, into one digest:
//!
//! 1. identity key with signed prekey,
//! 2. ephemeral key with identity key,
//! 3. ephemeral key with signed prekey,
//! 4. ephemeral key with one-time prekey.
//!
//! The initiator holds the secrets of its identity key and its ephemeral key;
//! the responder holds those of its identity key, signed prekey and one-time
//! prekey. Each side runs every exchange with the secret it holds against the
//! public key of the other.
use crate::prekey_bundle::PrekeyBundle;
use crate::prekey_pool::PrekeyPool;
use crate::primitives::{
    blake3_digest, hasher_finalize, hasher_input, hasher_new, hasher_update, wipe, x25519_public,
    x25519_shared,
};
use crate::types::{SharedSecret, X25519PublicKey, X25519Secret, X3dhError};
use vstd::prelude::*;

verus! {

/// The bytes that are hashed for four exchange outputs: the outputs one after
/// the other.
pub open spec fn chain_input(dh1: Seq<u8>, dh2: Seq<u8>, dh3: Seq<u8>, dh4: Seq<u8>) -> Seq<u8> {
    dh1 + dh2 + dh3 + dh4
}

/// The digest of four exchange outputs, hashed in order.
pub open spec fn chain_digest(dh1: Seq<u8>, dh2: Seq<u8>, dh3: Seq<u8>, dh4: Seq<u8>) -> Seq<u8> {
    blake3_digest(chain_input(dh1, dh2, dh3, dh4))
}

/// Each of the four exchange outputs can be read back from the bytes that are
/// hashed: chains of 32-byte outputs for which the same bytes are hashed are
/// equal in every stage.
pub proof fn lemma_chain_input_keeps_stages(
    a1: Seq<u8>,
    a2: Seq<u8>,
    a3: Seq<u8>,
    a4: Seq<u8>,
    b1: Seq<u8>,
    b2: Seq<u8>,
    b3: Seq<u8>,
    b4: Seq<u8>,
)
    requires
        a1.len() == 32 && a2.len() == 32 && a3.len() == 32 && a4.len() == 32,
        b1.len() == 32 && b2.len() == 32 && b3.len() == 32 && b4.len() == 32,
        chain_input(a1, a2, a3, a4) == chain_input(b1, b2, b3, b4),
    ensures
        a1 == b1 && a2 == b2 && a3 == b3 && a4 == b4,
{
    let a = chain_input(a1, a2, a3, a4);
    let b = chain_input(b1, b2, b3, b4);
    assert(a1 =~= a.subrange(0, 32) && b1 =~= b.subrange(0, 32));
    assert(a2 =~= a.subrange(32, 64) && b2 =~= b.subrange(32, 64));
    assert(a3 =~= a.subrange(64, 96) && b3 =~= b.subrange(64, 96));
    assert(a4 =~= a.subrange(96, 128) && b4 =~= b.subrange(96, 128));
}

/// The digest the initiator derives from its own identity and ephemeral
/// secrets and the three public keys of the responder.
pub open spec fn initiator_secret(
    identity_secret: Seq<u8>,
    ephemeral_secret: Seq<u8>,
    peer_identity: Seq<u8>,
    peer_signed_prekey: Seq<u8>,
    peer_one_time_prekey: Seq<u8>,
) -> Seq<u8> {
    chain_digest(
        x25519_shared(identity_secret, peer_signed_prekey),
        x25519_shared(ephemeral_secret, peer_identity),
        x25519_shared(ephemeral_secret, peer_signed_prekey),
        x25519_shared(ephemeral_secret, peer_one_time_prekey),
    )
}

/// The digest the responder derives from its own identity, signed-prekey and
/// one-time-prekey secrets and the two public keys of the initiator.
pub open spec fn responder_secret(
    identity_secret: Seq<u8>,
    signed_prekey_secret: Seq<u8>,
    one_time_secret: Seq<u8>,
    peer_identity: Seq<u8>,
    peer_ephemeral: Seq<u8>,
) -> Seq<u8> {
    chain_digest(
        x25519_shared(signed_prekey_secret, peer_identity),
        x25519_shared(identity_secret, peer_ephemeral),
        x25519_shared(signed_prekey_secret, peer_ephemeral),
        x25519_shared(one_time_secret, peer_ephemeral),
    )
}

/// `digest` is what any responder derives whose identity key, signed prekey
/// and one-time prekey are the three given public keys, when the initiator's
/// identity and ephemeral keys are `identity` and `ephemeral`.
pub open spec fn matches_responder(
    digest: Seq<u8>,
    identity: Seq<u8>,
    ephemeral: Seq<u8>,
    peer_identity: Seq<u8>,
    peer_signed_prekey: Seq<u8>,
    peer_one_time_prekey: Seq<u8>,
) -> bool {
    forall|identity_secret: Seq<u8>, signed_prekey_secret: Seq<u8>, one_time_secret: Seq<u8>|
        {
            &&& identity_secret.len() == 32
            &&& signed_prekey_secret.len() == 32
            &&& one_time_secret.len() == 32
            &&& peer_identity == #[trigger] x25519_public(identity_secret)
            &&& peer_signed_prekey == #[trigger] x25519_public(signed_prekey_secret)
            &&& peer_one_time_prekey == #[trigger] x25519_public(one_time_secret)
        } ==> digest == responder_secret(
            identity_secret,
            signed_prekey_secret,
            one_time_secret,
            identity,
            ephemeral,
        )
}

/// `digest` is what any initiator derives whose identity and ephemeral keys
/// are the two given public keys, from the bundle made of `identity`,
/// `signed_prekey` and `one_time_prekey`.
pub open spec fn matches_initiator(
    digest: Seq<u8>,
    identity: Seq<u8>,
    signed_prekey: Seq<u8>,
    one_time_prekey: Seq<u8>,
    peer_identity: Seq<u8>,
    peer_ephemeral: Seq<u8>,
) -> bool {
    forall|identity_secret: Seq<u8>, ephemeral_secret: Seq<u8>|
        {
            &&& identity_secret.len() == 32
            &&& ephemeral_secret.len() == 32
            &&& peer_identity == #[trigger] x25519_public(identity_secret)
            &&& peer_ephemeral == #[trigger] x25519_public(ephemeral_secret)
        } ==> digest == initiator_secret(
            identity_secret,
            ephemeral_secret,
            identity,
            signed_prekey,
            one_time_prekey,
        )
}

/// Both sides of a handshake derive the same digest.
///
/// Let an initiator with identity secret `identity_secret` and ephemeral
/// secret `ephemeral_secret` derive `initiator_digest` from a bundle, and let
/// the responder derive `responder_digest`, a digest that matches every
/// initiator behind the public keys of those two secrets. Then the two
/// digests are equal.
pub proof fn lemma_handshake_agreement(
    initiator_digest: Seq<u8>,
    responder_digest: Seq<u8>,
    identity_secret: Seq<u8>,
    ephemeral_secret: Seq<u8>,
    identity: Seq<u8>,
    signed_prekey: Seq<u8>,
    one_time_prekey: Seq<u8>,
)
    requires
        identity_secret.len() == 32,
        ephemeral_secret.len() == 32,
        initiator_digest == initiator_secret(
            identity_secret,
            ephemeral_secret,
            identity,
            signed_prekey,
            one_time_prekey,
        ),
        matches_initiator(
            responder_digest,
            identity,
            signed_prekey,
            one_time_prekey,
            x25519_public(identity_secret),
            x25519_public(ephemeral_secret),
        ),
    ensures
        initiator_digest == responder_digest,
{
}

/// Runs the exchanges of a handshake one by one and hashes each output, as
/// it is produced, into the digest.
pub struct SharedSecretEngine {
    hasher: blake3::Hasher,
}

impl SharedSecretEngine {
    /// The exchange outputs hashed so far, one after the other.
    pub closed spec fn absorbed(&self) -> Seq<u8> {
        hasher_input(self.hasher)
    }

    /// An engine that has run no exchange yet.
    pub fn new() -> (engine: Self)
        ensures
            engine.absorbed() == Seq::<u8>::empty(),
    {
        SharedSecretEngine { hasher: hasher_new() }
    }

    /// Runs one exchange, `secret` against `their_public`, hashes its output
    /// and erases it.
    ///
    /// Whatever secret lies behind `their_public`, its holder obtains the same
    /// output against the public key of `secret`.
    pub fn exchange(&mut self, secret: &X25519Secret, their_public: &X25519PublicKey)
        ensures
            final(self).absorbed() == old(self).absorbed() + x25519_shared(secret@, their_public@),
            forall|their_secret: Seq<u8>|
                their_secret.len() == 32 && their_public@ == #[trigger] x25519_public(their_secret)
                    ==> final(self).absorbed() == old(self).absorbed() + x25519_shared(
                    their_secret,
                    x25519_public(secret@),
                ),
    {
        let mut shared = secret.diffie_hellman(their_public);
        hasher_update(&mut self.hasher, &shared);
        wipe(&mut shared);
    }

    /// Hashes `bytes` as they are.
    pub fn absorb(&mut self, bytes: &[u8])
        ensures
            final(self).absorbed() == old(self).absorbed() + bytes@,
    {
        hasher_update(&mut self.hasher, bytes);
    }

    /// The digest of everything hashed so far.
    pub fn finish(&self) -> (digest: SharedSecret)
        ensures
            digest@ == blake3_digest(self.absorbed()),
    {
        SharedSecret::from_bytes(hasher_finalize(&self.hasher))
    }

    /// The digest of one exchange alone, `secret` against `their_public`.
    pub fn single(secret: &X25519Secret, their_public: &X25519PublicKey) -> (digest: SharedSecret)
        ensures
            digest@ == blake3_digest(x25519_shared(secret@, their_public@)),
            forall|their_secret: Seq<u8>|
                their_secret.len() == 32 && their_public@ == #[trigger] x25519_public(their_secret)
                    ==> digest@ == blake3_digest(
                    x25519_shared(their_secret, x25519_public(secret@)),
                ),
    {
        let mut engine = Self::new();
        engine.exchange(secret, their_public);
        assert(forall|s: Seq<u8>| Seq::<u8>::empty() + s =~= s);
        engine.finish()
    }

    /// The whole chain as the initiator runs it: own identity and ephemeral
    /// secrets against the three public keys of the responder's bundle.
    ///
    /// The digest is the one that every responder derives whose keys are
    /// those of the bundle.
    pub fn initiator(identity: &X25519Secret, ephemeral: &X25519Secret, bundle: &PrekeyBundle) -> (
        digest: SharedSecret)
        ensures
            digest@ == initiator_secret(
                identity@,
                ephemeral@,
                bundle@.ik,
                bundle@.spk,
                bundle@.opk,
            ),
            matches_responder(
                digest@,
                x25519_public(identity@),
                x25519_public(ephemeral@),
                bundle@.ik,
                bundle@.spk,
                bundle@.opk,
            ),
    {
        let mut engine = Self::new();
        engine.exchange(identity, &bundle.spk);
        engine.exchange(ephemeral, &bundle.ik);
        engine.exchange(ephemeral, &bundle.spk);
        engine.exchange(ephemeral, &bundle.opk);
        assert(forall|a: Seq<u8>, b: Seq<u8>, c: Seq<u8>, d: Seq<u8>|
            Seq::<u8>::empty() + a + b + c + d =~= #[trigger] (a + b + c + d));
        engine.finish()
    }

    /// The whole chain as the responder runs it: own identity secret, and the
    /// secrets of the signed prekey and of the one-time prekey `one_time` of
    /// `prekeys`, against the identity and ephemeral keys of the initiator.
    /// The one-time prekey is used up by this.
    ///
    /// Fails with `KeyNotFound`, and leaves the pool as it is, exactly when
    /// the pool holds no unused one-time prekey with the public key
    /// `one_time`.
    ///
    /// The digest is the one that every initiator derives whose identity and
    /// ephemeral keys are the two given, from the bundle made of this
    /// identity key, the signed prekey of the pool, and `one_time`.
    pub fn responder(
        identity: &X25519Secret,
        prekeys: &mut PrekeyPool,
        peer_identity: &X25519PublicKey,
        peer_ephemeral: &X25519PublicKey,
        one_time: &X25519PublicKey,
    ) -> (derived: Result<SharedSecret, X3dhError>)
        requires
            old(prekeys)@.wf(),
        ensures
            final(prekeys)@.wf(),
            old(prekeys)@.evolves_to(final(prekeys)@),
            match derived {
                Ok(digest) => {
                    &&& old(prekeys)@.available(one_time@)
                    &&& final(prekeys)@ == old(prekeys)@.after_consume(one_time@)
                    &&& final(prekeys)@.spent(one_time@)
                    &&& digest@ == responder_secret(
                        identity@,
                        old(prekeys)@.signed_prekey.secret,
                        old(prekeys)@.secret_of(one_time@),
                        peer_identity@,
                        peer_ephemeral@,
                    )
                    &&& matches_initiator(
                        digest@,
                        x25519_public(identity@),
                        old(prekeys)@.signed_prekey.prekey,
                        one_time@,
                        peer_identity@,
                        peer_ephemeral@,
                    )
                },
                Err(error) => {
                    &&& error == X3dhError::KeyNotFound
                    &&& !old(prekeys)@.available(one_time@)
                    &&& final(prekeys)@ == old(prekeys)@
                },
            },
    {
        let mut engine = Self::new();
        engine.exchange(prekeys.signed_prekey().secret(), peer_identity);
        engine.exchange(identity, peer_ephemeral);
        engine.exchange(prekeys.signed_prekey().secret(), peer_ephemeral);
        proof {
            if prekeys@.available(one_time@) {
                let i = choose|i: int| prekeys@.is_available_at(one_time@, i);
                assert(prekeys@.one_time[i].wf());
            }
        }
        match prekeys.consume(one_time) {
            Ok(secret) => {
                engine.exchange(secret, peer_ephemeral);
                assert(forall|a: Seq<u8>, b: Seq<u8>, c: Seq<u8>, d: Seq<u8>|
                    Seq::<u8>::empty() + a + b + c + d =~= #[trigger] (a + b + c + d));
                Ok(engine.finish())
            },
            Err(error) => Err(error),
        }
    }
}

} // verus!
