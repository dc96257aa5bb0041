//! The key pairs a party owns: signed prekey, one-time prekeys, ephemeral keys.
//!
//! Each pair holds a secret, its public key and the time it was made. The
//! secret is lent to its owner for an exchange; it is never copied, shown or
//! handed out by value.
use crate::primitives::{hex_string, x25519_public};
use crate::types::{Ed25519Signature, Timestamp, X25519PublicKey, X25519Secret, X3dhError};
use vstd::prelude::*;
use vstd::string::StringExecFns;

verus! {

/// The signer may be called on any 32-byte message.
pub open spec fn signer_accepts<F: Fn(&[u8]) -> Result<Ed25519Signature, X3dhError>>(
    signer: F,
) -> bool {
    forall|message: &[u8]| message@.len() == 32 ==> call_requires(signer, (message,))
}

/// `outcome` is something the signer may answer when asked to sign `message`.
pub open spec fn signer_returns<F: Fn(&[u8]) -> Result<Ed25519Signature, X3dhError>>(
    signer: F,
    message: Seq<u8>,
    outcome: Result<Ed25519Signature, X3dhError>,
) -> bool {
    exists|m: &[u8]| m@ == message && #[trigger] call_ensures(signer, (m,), outcome)
}

/// `signature` is one that the signer may give when asked to sign `message`.
pub open spec fn signed_by<F: Fn(&[u8]) -> Result<Ed25519Signature, X3dhError>>(
    signer: F,
    message: Seq<u8>,
    signature: Seq<u8>,
) -> bool {
    exists|given: Ed25519Signature|
        given@ == signature && #[trigger] signer_returns(signer, message, Ok(given))
}

/// The signer may fail when asked to sign `message`.
pub open spec fn signer_fails_on<F: Fn(&[u8]) -> Result<Ed25519Signature, X3dhError>>(
    signer: F,
    message: Seq<u8>,
) -> bool {
    exists|failure: X3dhError| #[trigger] signer_returns(signer, message, Err(failure))
}

/// The signer may fail on some 32-byte message.
pub open spec fn signer_may_fail<F: Fn(&[u8]) -> Result<Ed25519Signature, X3dhError>>(
    signer: F,
) -> bool {
    exists|message: Seq<u8>| message.len() == 32 && #[trigger] signer_fails_on(signer, message)
}

/// What a [`SignedPrekey`] holds.
pub struct SignedPrekeyView {
    pub secret: Seq<u8>,
    pub prekey: Seq<u8>,
    pub signature: Seq<u8>,
    pub timestamp: Timestamp,
}

impl SignedPrekeyView {
    /// The secret has 32 bytes and the public key is the one derived from it.
    pub open spec fn wf(self) -> bool {
        self.secret.len() == 32 && self.prekey == x25519_public(self.secret)
    }

    /// The text shown for the pair: signature and public key in hexadecimal,
    /// a fixed mark in place of the secret.
    pub open spec fn described(self) -> Seq<char> {
        "SignedPrekey { secret: [REDACTED]::<SPK>, signature: "@ + hex_string(self.signature)
            + ", prekey: "@ + hex_string(self.prekey) + " }"@
    }
}

/// A medium-lived key pair whose public key carries a signature.
pub struct SignedPrekey {
    signature: Ed25519Signature,
    secret: X25519Secret,
    prekey: X25519PublicKey,
    timestamp: Timestamp,
}

impl View for SignedPrekey {
    type V = SignedPrekeyView;

    closed spec fn view(&self) -> SignedPrekeyView {
        SignedPrekeyView {
            secret: self.secret@,
            prekey: self.prekey@,
            signature: self.signature@,
            timestamp: self.timestamp,
        }
    }
}

impl SignedPrekey {
    /// The pair of `secret`, made at `timestamp`, with the signature that
    /// `compute_signature` gives for the bytes of its public key.
    ///
    /// Fails with `SignatureComputationFailure` exactly when the signer fails.
    pub fn from_secret<F: Fn(&[u8]) -> Result<Ed25519Signature, X3dhError>>(
        secret: X25519Secret,
        timestamp: Timestamp,
        compute_signature: F,
    ) -> (made: Result<Self, X3dhError>)
        requires
            signer_accepts(compute_signature),
        ensures
            match made {
                Ok(key) => {
                    &&& key@.wf()
                    &&& key@.secret == secret@
                    &&& key@.timestamp == timestamp
                    &&& signed_by(compute_signature, key@.prekey, key@.signature)
                },
                Err(error) => {
                    &&& error == X3dhError::SignatureComputationFailure
                    &&& x25519_public(secret@).len() == 32
                    &&& signer_fails_on(compute_signature, x25519_public(secret@))
                },
            },
    {
        proof {
            secret.lemma_length();
        }
        let prekey = secret.public_key();
        let outcome = compute_signature(&prekey.bytes);
        match outcome {
            Ok(signature) => {
                assert(signer_returns(compute_signature, prekey@, Ok(signature)));
                Ok(SignedPrekey { signature, secret, prekey, timestamp })
            },
            Err(failure) => {
                assert(signer_returns(compute_signature, prekey@, Err(failure)));
                Err(X3dhError::SignatureComputationFailure)
            },
        }
    }

    /// A fresh pair: a new random secret, made now, signed by `compute_signature`.
    ///
    /// Fails with `SignatureComputationFailure` when the signer fails.
    pub fn new<F: Fn(&[u8]) -> Result<Ed25519Signature, X3dhError>>(compute_signature: F) -> (made:
        Result<Self, X3dhError>)
        requires
            signer_accepts(compute_signature),
        ensures
            match made {
                Ok(key) => {
                    &&& key@.wf()
                    &&& key@.timestamp.is_valid()
                    &&& signed_by(compute_signature, key@.prekey, key@.signature)
                },
                Err(error) => error == X3dhError::SignatureComputationFailure && signer_may_fail(
                    compute_signature,
                ),
            },
    {
        let timestamp = Timestamp::now();
        let secret = X25519Secret::generate();
        let ghost prekey = x25519_public(secret@);
        let made = Self::from_secret(secret, timestamp, compute_signature);
        assert(made is Err ==> signer_fails_on(compute_signature, prekey));
        made
    }

    /// The public key.
    pub fn prekey(&self) -> (prekey: X25519PublicKey)
        ensures
            prekey@ == self@.prekey,
    {
        self.prekey
    }

    /// The signature over the public key.
    pub fn signature(&self) -> (signature: Ed25519Signature)
        ensures
            signature@ == self@.signature,
    {
        self.signature
    }

    /// The time the pair was made.
    pub fn timestamp(&self) -> (timestamp: Timestamp)
        ensures
            timestamp == self@.timestamp,
    {
        self.timestamp
    }

    /// The secret, for the exchanges its owner runs.
    pub(crate) fn secret(&self) -> (secret: &X25519Secret)
        ensures
            secret@ == self@.secret,
    {
        &self.secret
    }

    /// The pair as text, without its secret.
    pub fn describe(&self) -> (text: String)
        ensures
            text@ == self@.described(),
    {
        let mut text = String::from_str("SignedPrekey { secret: [REDACTED]::<SPK>, signature: ");
        text.append(self.signature.to_hex().as_str());
        text.append(", prekey: ");
        text.append(self.prekey.to_hex().as_str());
        text.append(" }");
        text
    }
}

/// What a [`OneTimePreKey`] holds.
pub struct OneTimePreKeyView {
    pub secret: Seq<u8>,
    pub prekey: Seq<u8>,
    pub timestamp: Timestamp,
    pub stale: bool,
}

impl OneTimePreKeyView {
    /// The secret has 32 bytes and the public key is the one derived from it.
    pub open spec fn wf(self) -> bool {
        self.secret.len() == 32 && self.prekey == x25519_public(self.secret)
    }

    /// The same key after it has been used.
    pub open spec fn spent(self) -> Self {
        OneTimePreKeyView { stale: true, ..self }
    }

    /// The text shown for the pair: public key in hexadecimal and whether it
    /// is stale, a fixed mark in place of the secret.
    pub open spec fn described(self) -> Seq<char> {
        "OneTimePreKey { secret: [REDACTED]::<OPK>, prekey: "@ + hex_string(self.prekey)
            + ", stale: "@ + (if self.stale {
            "true"@
        } else {
            "false"@
        }) + " }"@
    }
}

/// A single-use key pair. Once used it is stale and is never offered again.
pub struct OneTimePreKey {
    secret: X25519Secret,
    prekey: X25519PublicKey,
    timestamp: Timestamp,
    stale: bool,
}

impl View for OneTimePreKey {
    type V = OneTimePreKeyView;

    closed spec fn view(&self) -> OneTimePreKeyView {
        OneTimePreKeyView {
            secret: self.secret@,
            prekey: self.prekey@,
            timestamp: self.timestamp,
            stale: self.stale,
        }
    }
}

impl OneTimePreKey {
    /// The unused pair of `secret`, made at `timestamp`.
    pub fn from_secret(secret: X25519Secret, timestamp: Timestamp) -> (key: Self)
        ensures
            key@.wf(),
            key@ == (OneTimePreKeyView {
                secret: secret@,
                prekey: x25519_public(secret@),
                timestamp,
                stale: false,
            }),
    {
        proof {
            secret.lemma_length();
        }
        let prekey = secret.public_key();
        OneTimePreKey { secret, prekey, timestamp, stale: false }
    }

    /// A fresh unused pair: a new random secret, made now.
    pub fn new() -> (key: Self)
        ensures
            key@.wf(),
            !key@.stale,
            key@.timestamp.is_valid(),
    {
        let timestamp = Timestamp::now();
        let secret = X25519Secret::generate();
        Self::from_secret(secret, timestamp)
    }

    /// The public key.
    pub fn prekey(&self) -> (prekey: X25519PublicKey)
        ensures
            prekey@ == self@.prekey,
    {
        self.prekey
    }

    /// Whether the key has been used.
    pub fn is_stale(&self) -> (stale: bool)
        ensures
            stale == self@.stale,
    {
        self.stale
    }

    /// The time the pair was made.
    pub fn timestamp(&self) -> (timestamp: Timestamp)
        ensures
            timestamp == self@.timestamp,
    {
        self.timestamp
    }

    /// Marks the key used.
    pub(crate) fn mark_stale(&mut self)
        ensures
            final(self)@ == old(self)@.spent(),
    {
        self.stale = true;
    }

    /// The secret, for the one exchange its owner runs with it.
    pub(crate) fn secret(&self) -> (secret: &X25519Secret)
        ensures
            secret@ == self@.secret,
    {
        &self.secret
    }

    /// The pair as text, without its secret.
    pub fn describe(&self) -> (text: String)
        ensures
            text@ == self@.described(),
    {
        let mut text = String::from_str("OneTimePreKey { secret: [REDACTED]::<OPK>, prekey: ");
        text.append(self.prekey.to_hex().as_str());
        text.append(", stale: ");
        if self.stale {
            text.append("true");
        } else {
            text.append("false");
        }
        text.append(" }");
        text
    }
}

/// What an [`EphemeralX25519Keypair`] holds.
pub struct EphemeralKeypairView {
    pub associated_public_key: Seq<u8>,
    pub secret: Seq<u8>,
    pub prekey: Seq<u8>,
    pub timestamp: Timestamp,
}

impl EphemeralKeypairView {
    /// The secret has 32 bytes and the public key is the one derived from it.
    pub open spec fn wf(self) -> bool {
        self.secret.len() == 32 && self.prekey == x25519_public(self.secret)
    }

    /// The text shown for the pair: both public keys in hexadecimal, a fixed
    /// mark in place of the secret.
    pub open spec fn described(self) -> Seq<char> {
        "EphemeralX25519Keypair { prekey: "@ + hex_string(self.prekey)
            + ", secret: [REDACTED]::<EK>, associated_public_key: "@ + hex_string(
            self.associated_public_key,
        ) + " }"@
    }
}

/// A key pair made for one handshake with one correspondent.
pub struct EphemeralX25519Keypair {
    associated_public_key: X25519PublicKey,
    secret: X25519Secret,
    prekey: X25519PublicKey,
    timestamp: Timestamp,
}

impl View for EphemeralX25519Keypair {
    type V = EphemeralKeypairView;

    closed spec fn view(&self) -> EphemeralKeypairView {
        EphemeralKeypairView {
            associated_public_key: self.associated_public_key@,
            secret: self.secret@,
            prekey: self.prekey@,
            timestamp: self.timestamp,
        }
    }
}

impl EphemeralX25519Keypair {
    /// The pair of `secret`, made at `timestamp` for the correspondent whose
    /// identity key is `associated_public_key`.
    pub fn from_secret(
        associated_public_key: X25519PublicKey,
        secret: X25519Secret,
        timestamp: Timestamp,
    ) -> (key: Self)
        ensures
            key@.wf(),
            key@ == (EphemeralKeypairView {
                associated_public_key: associated_public_key@,
                secret: secret@,
                prekey: x25519_public(secret@),
                timestamp,
            }),
    {
        proof {
            secret.lemma_length();
        }
        let prekey = secret.public_key();
        EphemeralX25519Keypair { associated_public_key, secret, prekey, timestamp }
    }

    /// A fresh pair for the correspondent: a new random secret, made now.
    pub fn new(associated_public_key: X25519PublicKey) -> (key: Self)
        ensures
            key@.wf(),
            key@.associated_public_key == associated_public_key@,
            key@.timestamp.is_valid(),
    {
        let timestamp = Timestamp::now();
        let secret = X25519Secret::generate();
        Self::from_secret(associated_public_key, secret, timestamp)
    }

    /// The identity key of the correspondent the pair was made for.
    pub fn associated_public_key(&self) -> (key: X25519PublicKey)
        ensures
            key@ == self@.associated_public_key,
    {
        self.associated_public_key
    }

    /// The public key.
    pub fn prekey(&self) -> (prekey: X25519PublicKey)
        ensures
            prekey@ == self@.prekey,
    {
        self.prekey
    }

    /// The time the pair was made.
    pub fn timestamp(&self) -> (timestamp: Timestamp)
        ensures
            timestamp == self@.timestamp,
    {
        self.timestamp
    }

    /// The secret, for the exchanges its owner runs.
    pub(crate) fn secret(&self) -> (secret: &X25519Secret)
        ensures
            secret@ == self@.secret,
    {
        &self.secret
    }

    /// The pair as text, without its secret.
    pub fn describe(&self) -> (text: String)
        ensures
            text@ == self@.described(),
    {
        let mut text = String::from_str("EphemeralX25519Keypair { prekey: ");
        text.append(self.prekey.to_hex().as_str());
        text.append(", secret: [REDACTED]::<EK>, associated_public_key: ");
        text.append(self.associated_public_key.to_hex().as_str());
        text.append(" }");
        text
    }
}

} // verus!
