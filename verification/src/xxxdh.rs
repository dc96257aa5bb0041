//! A party of the handshake.
//!
//! A party owns its identity key, its pool of prekeys and the ephemeral keys
//! of the handshakes it has started. It publishes a bundle of its public
//! keys; a peer starts a handshake against that bundle as the initiator, and
//! the party completes it as the responder. Both derive the same digest.
use crate::engine::{
    initiator_secret, lemma_handshake_agreement, matches_initiator, matches_responder,
    responder_secret, SharedSecretEngine,
};
use crate::ephemeral::{pairs_wf, EphemeralKeyExchange};
use crate::keys::{
    signed_by, signer_accepts, signer_may_fail, EphemeralKeypairView, EphemeralX25519Keypair,
    OneTimePreKeyView,
};
use crate::prekey_bundle::{PrekeyBundle, PrekeyBundleView};
use crate::prekey_pool::{
    first_of_each, freshly_made, lemma_listed_hides_secrets, same_public_keys, PrekeyPool,
    PrekeyPoolView, ONE_TIME_PREKEY_COUNT,
};
use crate::primitives::{blake3_digest, hex_string, x25519_public, x25519_shared};
use crate::types::{
    Ed25519Signature, SharedSecret, Timestamp, X25519PublicKey, X25519Secret, X3dhError,
};
use vstd::prelude::*;
use vstd::string::StringExecFns;

verus! {

/// What a party holds.
pub struct X3dhView {
    /// Secret of the identity key.
    pub secret: Seq<u8>,
    /// Identity key.
    pub static_public_key: Seq<u8>,
    /// The time the identity key was made.
    pub timestamp: Timestamp,
    /// Signed prekey and one-time prekeys.
    pub prekeys: PrekeyPoolView,
    /// Ephemeral key pairs, each under the identity key of its correspondent.
    pub ephemeral_prekeys: Map<Seq<u8>, EphemeralKeypairView>,
    /// Digest of the identity-binding exchange that was last run.
    pub shared_secret: Seq<u8>,
}

impl X3dhView {
    /// Every public key is the one derived from its secret, no two one-time
    /// prekeys share a public key, and every ephemeral pair is held under the
    /// correspondent it was made for.
    pub open spec fn wf(self) -> bool {
        &&& self.secret.len() == 32
        &&& self.static_public_key == x25519_public(self.secret)
        &&& self.prekeys.wf()
        &&& pairs_wf(self.ephemeral_prekeys)
    }

    /// The text shown for the party: its public keys and digest in
    /// hexadecimal, a fixed mark in place of every secret.
    pub open spec fn described(self) -> Seq<char> {
        "X3DH { secret: [REDACTED]::<IK>, static_public_key: "@ + hex_string(
            self.static_public_key,
        ) + ", prekeys: "@ + self.prekeys.described() + ", shared_secret: "@ + hex_string(
            self.shared_secret,
        ) + " }"@
    }

    /// The bundle of this party that offers the one-time prekey `opk`.
    pub open spec fn bundle(self, opk: Seq<u8>) -> PrekeyBundleView {
        PrekeyBundleView {
            ik: self.static_public_key,
            spk: self.prekeys.signed_prekey.prekey,
            spk_signature: self.prekeys.signed_prekey.signature,
            opk,
        }
    }
}

/// The shared secret a party holds before it has run any exchange: the
/// digest of 32 zero bytes.
pub open spec fn blank_shared_secret() -> Seq<u8> {
    blake3_digest(Seq::new(32, |i: int| 0u8))
}

/// Two parties show the same public parts: the same identity key, signed
/// prekey, signature, one-time prekeys with their marks of use, and digest.
pub open spec fn same_public_parts(a: X3dhView, b: X3dhView) -> bool {
    &&& a.static_public_key == b.static_public_key
    &&& a.prekeys.signed_prekey.prekey == b.prekeys.signed_prekey.prekey
    &&& a.prekeys.signed_prekey.signature == b.prekeys.signed_prekey.signature
    &&& same_public_keys(a.prekeys.one_time, b.prekeys.one_time)
    &&& a.shared_secret == b.shared_secret
}

/// The text shown for a party depends on its public parts alone: parties
/// that differ in their secrets only are described by the same text.
pub proof fn lemma_description_hides_secrets(a: X3dhView, b: X3dhView)
    requires
        same_public_parts(a, b),
    ensures
        a.described() == b.described(),
{
    lemma_listed_hides_secrets(a.prekeys.one_time, b.prekeys.one_time);
}

/// Both parties of a handshake derive the same digest.
///
/// Let the initiator hold an ephemeral key for the responder and derive
/// `initiator_digest` from the responder's bundle that offers `opk`, as
/// [`X3DH::dh_ephemeral1`] does. Let the responder derive `responder_digest`
/// from the initiator's identity key, the public key of that ephemeral key,
/// and `opk`, as [`X3DH::dh_ephemeral2`] does. Then the two digests are equal.
pub proof fn lemma_parties_agree(
    initiator: X3dhView,
    responder: X3dhView,
    opk: Seq<u8>,
    initiator_digest: Seq<u8>,
    responder_digest: Seq<u8>,
)
    requires
        initiator.wf(),
        initiator.ephemeral_prekeys.dom().contains(responder.static_public_key),
        initiator_digest == initiator_secret(
            initiator.secret,
            initiator.ephemeral_prekeys[responder.static_public_key].secret,
            responder.bundle(opk).ik,
            responder.bundle(opk).spk,
            responder.bundle(opk).opk,
        ),
        matches_initiator(
            responder_digest,
            responder.static_public_key,
            responder.prekeys.signed_prekey.prekey,
            opk,
            initiator.static_public_key,
            initiator.ephemeral_prekeys[responder.static_public_key].prekey,
        ),
    ensures
        initiator_digest == responder_digest,
{
    let ephemeral = initiator.ephemeral_prekeys[responder.static_public_key];
    assert(ephemeral.wf());
    lemma_handshake_agreement(
        initiator_digest,
        responder_digest,
        initiator.secret,
        ephemeral.secret,
        responder.static_public_key,
        responder.prekeys.signed_prekey.prekey,
        opk,
    );
}

/// A party of the handshake: identity key, prekeys and ephemeral keys.
pub struct X3DH {
    secret: X25519Secret,
    static_public_key: X25519PublicKey,
    timestamp: Timestamp,
    prekeys: PrekeyPool,
    ephemeral_prekeys: EphemeralKeyExchange,
    shared_secret: SharedSecret,
}

impl View for X3DH {
    type V = X3dhView;

    closed spec fn view(&self) -> X3dhView {
        X3dhView {
            secret: self.secret@,
            static_public_key: self.static_public_key@,
            timestamp: self.timestamp,
            prekeys: self.prekeys@,
            ephemeral_prekeys: self.ephemeral_prekeys@,
            shared_secret: self.shared_secret@,
        }
    }
}

impl X3DH {
    /// The store of ephemeral keys is well-formed.
    pub closed spec fn stores_wf(&self) -> bool {
        self.ephemeral_prekeys.wf()
    }

    /// The party is well-formed: so is what it holds, and so are its stores.
    pub open spec fn wf(&self) -> bool {
        self@.wf() && self.stores_wf()
    }

    /// The party with the identity secret `secret`, made at `timestamp`, that
    /// owns the prekeys of `prekeys` and has started no handshake.
    pub fn assemble(secret: X25519Secret, timestamp: Timestamp, prekeys: PrekeyPool) -> (party:
        Self)
        requires
            prekeys@.wf(),
        ensures
            party.wf(),
            party@ == (X3dhView {
                secret: secret@,
                static_public_key: x25519_public(secret@),
                timestamp,
                prekeys: prekeys@,
                ephemeral_prekeys: Map::empty(),
                shared_secret: blank_shared_secret(),
            }),
    {
        proof {
            secret.lemma_length();
        }
        let static_public_key = secret.public_key();
        let mut engine = SharedSecretEngine::new();
        let zeros = [0u8;32];
        engine.absorb(&zeros);
        assert(Seq::<u8>::empty() + zeros@ =~= Seq::new(32, |i: int| 0u8));
        X3DH {
            static_public_key,
            secret,
            timestamp,
            prekeys,
            ephemeral_prekeys: EphemeralKeyExchange::new(),
            shared_secret: engine.finish(),
        }
    }

    /// A fresh party: a new random identity key, a new signed prekey signed
    /// by `compute_signature`, ten new one-time prekeys, and no handshake
    /// started. Should two of the ten one-time prekeys have the same public
    /// key, the party holds the first of them only.
    ///
    /// Fails with `SignatureComputationFailure` when the signer fails.
    pub fn new<F: Fn(&[u8]) -> Result<Ed25519Signature, X3dhError>>(compute_signature: F) -> (made:
        Result<Self, X3dhError>)
        requires
            signer_accepts(compute_signature),
        ensures
            match made {
                Ok(party) => {
                    &&& party.wf()
                    &&& party@.timestamp.is_valid()
                    &&& party@.ephemeral_prekeys == Map::<Seq<u8>, EphemeralKeypairView>::empty()
                    &&& party@.shared_secret == blank_shared_secret()
                    &&& party@.prekeys.offer() is Some
                    &&& exists|made: Seq<OneTimePreKeyView>|
                        freshly_made(made, ONE_TIME_PREKEY_COUNT as nat)
                            && party@.prekeys.one_time == #[trigger] first_of_each(made)
                    &&& 1 <= party@.prekeys.one_time.len() <= ONE_TIME_PREKEY_COUNT
                    &&& forall|i: int|
                        0 <= i < party@.prekeys.one_time.len() ==> !(
                        #[trigger] party@.prekeys.one_time[i]).stale
                    &&& signed_by(
                        compute_signature,
                        party@.prekeys.signed_prekey.prekey,
                        party@.prekeys.signed_prekey.signature,
                    )
                },
                Err(error) => error == X3dhError::SignatureComputationFailure && signer_may_fail(
                    compute_signature,
                ),
            },
    {
        let timestamp = Timestamp::now();
        let secret = X25519Secret::generate();
        match PrekeyPool::initialize(compute_signature) {
            Ok(prekeys) => {
                assert(prekeys@.is_next(0));
                Ok(Self::assemble(secret, timestamp, prekeys))
            },
            Err(error) => Err(error),
        }
    }

    /// The bundle the party publishes: its identity key, its signed prekey
    /// with the signature, and the first one-time prekey that is still unused.
    ///
    /// Fails with `PoolExhausted` exactly when no unused one-time prekey is
    /// left.
    pub fn prekey_bundle(&self) -> (published: Result<PrekeyBundle, X3dhError>)
        ensures
            match published {
                Ok(bundle) => {
                    &&& bundle@ == self@.bundle(bundle@.opk)
                    &&& self@.prekeys.offer() == Some(bundle@.opk)
                    &&& self@.prekeys.available(bundle@.opk)
                },
                Err(error) => error == X3dhError::PoolExhausted && self@.prekeys.offer() is None,
            },
    {
        match self.prekeys.publish() {
            Ok(fragment) => Ok(
                PrekeyBundle {
                    ik: self.static_public_key,
                    spk: fragment.spk,
                    spk_signature: fragment.spk_signature,
                    opk: fragment.opk,
                },
            ),
            Err(error) => Err(error),
        }
    }

    /// Starts a handshake with the correspondent whose identity key is
    /// `associated_public_key`: makes a fresh ephemeral key pair, holds it
    /// for that correspondent in place of any held before, and returns its
    /// public key.
    pub fn new_ephemeral_key(&mut self, associated_public_key: X25519PublicKey) -> (public:
        X25519PublicKey)
        requires
            old(self).wf(),
        ensures
            final(self).wf(),
            final(self)@.ephemeral_prekeys.dom() == old(self)@.ephemeral_prekeys.dom().insert(
                associated_public_key@,
            ),
            final(self)@.ephemeral_prekeys[associated_public_key@].prekey == public@,
            final(self)@.ephemeral_prekeys.remove(associated_public_key@)
                == old(self)@.ephemeral_prekeys.remove(associated_public_key@),
            final(self)@ == (X3dhView {
                ephemeral_prekeys: final(self)@.ephemeral_prekeys,
                ..old(self)@
            }),
    {
        let public = self.ephemeral_prekeys.create(associated_public_key);
        proof {
            self.ephemeral_prekeys.lemma_pairs_wf();
        }
        public
    }

    /// Starts a handshake with the given ephemeral key pair: holds `pair` for
    /// its correspondent in place of any held before, and returns its public
    /// key.
    pub fn hold_ephemeral_key(&mut self, pair: EphemeralX25519Keypair) -> (public: X25519PublicKey)
        requires
            old(self).wf(),
            pair@.wf(),
        ensures
            final(self).wf(),
            public@ == pair@.prekey,
            final(self)@ == (X3dhView {
                ephemeral_prekeys: old(self)@.ephemeral_prekeys.insert(
                    pair@.associated_public_key,
                    pair@,
                ),
                ..old(self)@
            }),
    {
        let public = pair.prekey();
        self.ephemeral_prekeys.store(pair);
        proof {
            self.ephemeral_prekeys.lemma_pairs_wf();
        }
        public
    }

    /// Runs the identity-binding exchange as the initiator, own identity key
    /// against the signed prekey of the bundle, and keeps its digest.
    ///
    /// A responder whose signed prekey is the one of the bundle obtains the
    /// same digest from [`X3DH::dh_static2`] on this party's bundle.
    pub fn dh_static1(&mut self, prekey_bundle: PrekeyBundle) -> (party: &mut Self)
        requires
            old(self).wf(),
        ensures
            party.wf(),
            party@ == (X3dhView {
                shared_secret: blake3_digest(x25519_shared(old(self)@.secret, prekey_bundle@.spk)),
                ..old(self)@
            }),
            forall|their_secret: Seq<u8>|
                their_secret.len() == 32 && prekey_bundle@.spk == #[trigger] x25519_public(
                    their_secret,
                ) ==> party@.shared_secret == blake3_digest(
                    x25519_shared(their_secret, old(self)@.static_public_key),
                ),
            *final(self) == *final(party),
    {
        self.shared_secret = SharedSecretEngine::single(&self.secret, &prekey_bundle.spk);
        self
    }

    /// Runs the identity-binding exchange as the responder, own signed prekey
    /// against the identity key of the bundle, and keeps its digest.
    ///
    /// An initiator whose identity key is the one of the bundle obtains the
    /// same digest from [`X3DH::dh_static1`] on this party's bundle.
    pub fn dh_static2(&mut self, prekey_bundle: PrekeyBundle) -> (party: &mut Self)
        requires
            old(self).wf(),
        ensures
            party.wf(),
            party@ == (X3dhView {
                shared_secret: blake3_digest(
                    x25519_shared(old(self)@.prekeys.signed_prekey.secret, prekey_bundle@.ik),
                ),
                ..old(self)@
            }),
            forall|their_secret: Seq<u8>|
                their_secret.len() == 32 && prekey_bundle@.ik == #[trigger] x25519_public(
                    their_secret,
                ) ==> party@.shared_secret == blake3_digest(
                    x25519_shared(their_secret, old(self)@.prekeys.signed_prekey.prekey),
                ),
            *final(self) == *final(party),
    {
        let signed_prekey = self.prekeys.signed_prekey().secret();
        let digest = SharedSecretEngine::single(signed_prekey, &prekey_bundle.ik);
        self.shared_secret = digest;
        self
    }

    /// Completes, as the initiator, the handshake started with the party that
    /// published `prekey_bundle`: runs the four exchanges with the own
    /// identity key and the ephemeral key held for that party, and returns
    /// the digest. The party itself is left as it is.
    ///
    /// Fails with `KeyNotFound` exactly when no ephemeral key is held for the
    /// identity key of the bundle.
    ///
    /// The digest is the one that the publisher of the bundle derives with
    /// [`X3DH::dh_ephemeral2`] from this party's identity key, the public key
    /// of the ephemeral key, and the one-time prekey of the bundle.
    pub fn dh_ephemeral1(&mut self, prekey_bundle: &PrekeyBundle) -> (derived: Result<
        SharedSecret,
        X3dhError,
    >)
        requires
            old(self).wf(),
        ensures
            final(self).wf(),
            final(self)@ == old(self)@,
            match derived {
                Ok(digest) => {
                    &&& old(self)@.ephemeral_prekeys.dom().contains(prekey_bundle@.ik)
                    &&& digest@ == initiator_secret(
                        old(self)@.secret,
                        old(self)@.ephemeral_prekeys[prekey_bundle@.ik].secret,
                        prekey_bundle@.ik,
                        prekey_bundle@.spk,
                        prekey_bundle@.opk,
                    )
                    &&& matches_responder(
                        digest@,
                        old(self)@.static_public_key,
                        old(self)@.ephemeral_prekeys[prekey_bundle@.ik].prekey,
                        prekey_bundle@.ik,
                        prekey_bundle@.spk,
                        prekey_bundle@.opk,
                    )
                },
                Err(error) => {
                    &&& error == X3dhError::KeyNotFound
                    &&& !old(self)@.ephemeral_prekeys.dom().contains(prekey_bundle@.ik)
                },
            },
    {
        proof {
            self.ephemeral_prekeys.lemma_pairs_wf();
        }
        match self.ephemeral_prekeys.lookup(&prekey_bundle.ik) {
            Ok(ephemeral) => Ok(
                SharedSecretEngine::initiator(&self.secret, ephemeral, prekey_bundle),
            ),
            Err(error) => Err(error),
        }
    }

    /// Completes, as the responder, a handshake that an initiator started
    /// against this party's bundle: uses up the one-time prekey `opk`, runs
    /// the four exchanges with the own identity key, signed prekey and that
    /// one-time prekey against the initiator's identity key `peer_identity`
    /// and ephemeral key `ek_public_key`, and returns the digest.
    ///
    /// Fails with `KeyNotFound`, and leaves the party as it is, exactly when
    /// the party holds no unused one-time prekey with the public key `opk`.
    /// Otherwise that one-time prekey is stale afterwards and nothing else
    /// has changed.
    ///
    /// The digest is the one that the initiator derives with
    /// [`X3DH::dh_ephemeral1`] from the bundle of this party that offers
    /// `opk`.
    pub fn dh_ephemeral2(
        &mut self,
        peer_identity: &X25519PublicKey,
        ek_public_key: &X25519PublicKey,
        opk: &X25519PublicKey,
    ) -> (derived: Result<SharedSecret, X3dhError>)
        requires
            old(self).wf(),
        ensures
            final(self).wf(),
            old(self)@.prekeys.evolves_to(final(self)@.prekeys),
            match derived {
                Ok(digest) => {
                    &&& old(self)@.prekeys.available(opk@)
                    &&& final(self)@ == (X3dhView {
                        prekeys: old(self)@.prekeys.after_consume(opk@),
                        ..old(self)@
                    })
                    &&& final(self)@.prekeys.spent(opk@)
                    &&& digest@ == responder_secret(
                        old(self)@.secret,
                        old(self)@.prekeys.signed_prekey.secret,
                        old(self)@.prekeys.secret_of(opk@),
                        peer_identity@,
                        ek_public_key@,
                    )
                    &&& matches_initiator(
                        digest@,
                        old(self)@.static_public_key,
                        old(self)@.prekeys.signed_prekey.prekey,
                        opk@,
                        peer_identity@,
                        ek_public_key@,
                    )
                },
                Err(error) => {
                    &&& error == X3dhError::KeyNotFound
                    &&& !old(self)@.prekeys.available(opk@)
                    &&& final(self)@ == old(self)@
                },
            },
    {
        SharedSecretEngine::responder(
            &self.secret,
            &mut self.prekeys,
            peer_identity,
            ek_public_key,
            opk,
        )
    }

    /// The identity key of the party.
    pub fn ik(&self) -> (identity: X25519PublicKey)
        ensures
            identity@ == self@.static_public_key,
    {
        self.static_public_key
    }

    /// The digest of the identity-binding exchange that was last run.
    pub fn shared_secret(&self) -> (digest: SharedSecret)
        ensures
            digest@ == self@.shared_secret,
    {
        self.shared_secret
    }

    /// The party as text, without any secret.
    pub fn describe(&self) -> (text: String)
        ensures
            text@ == self@.described(),
    {
        let mut text = String::from_str("X3DH { secret: [REDACTED]::<IK>, static_public_key: ");
        text.append(self.static_public_key.to_hex().as_str());
        text.append(", prekeys: ");
        text.append(self.prekeys.describe().as_str());
        text.append(", shared_secret: ");
        text.append(self.shared_secret.to_hex().as_str());
        text.append(" }");
        text
    }
}

} // verus!
