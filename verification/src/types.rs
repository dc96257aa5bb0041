//! Key material, signatures, digests and errors as plain values.
use crate::primitives::{
    digest_eq, hex_encode, hex_string, tai64n_now, wipe, x25519_diffie_hellman, x25519_generate,
    x25519_public, x25519_public_key, x25519_shared,
};
use vstd::prelude::*;

verus! {

/// Why an operation of the handshake could not be carried out.
#[derive(Clone, Copy, Debug, PartialEq, Eq, Structural)]
pub enum X3dhError {
    /// No ephemeral key is held for the peer, or the one-time prekey is
    /// unknown or already used.
    KeyNotFound,
    /// Every one-time prekey has been used; none is left to publish.
    PoolExhausted,
    /// The signing capability could not produce a signature.
    SignatureComputationFailure,
}

/// Whether two byte arrays hold the same bytes.
pub fn bytes_equal<const N: usize>(left: &[u8; N], right: &[u8; N]) -> (same: bool)
    ensures
        same == (left@ == right@),
{
    let mut i: usize = 0;
    while i < N
        invariant
            i <= N,
            forall|j: int| 0 <= j < i ==> left@[j] == right@[j],
        decreases N - i,
    {
        if left[i] != right[i] {
            return false;
        }
        i += 1;
    }
    assert(left@ =~= right@);
    true
}

/// An X25519 public key.
#[derive(Clone, Copy, Debug)]
pub struct X25519PublicKey {
    pub bytes: [u8; 32],
}

impl View for X25519PublicKey {
    type V = Seq<u8>;

    open spec fn view(&self) -> Seq<u8> {
        self.bytes@
    }
}

impl PartialEq for X25519PublicKey {
    fn eq(&self, other: &Self) -> (same: bool) {
        bytes_equal(&self.bytes, &other.bytes)
    }
}

impl Eq for X25519PublicKey {

}

impl vstd::std_specs::cmp::PartialEqSpecImpl for X25519PublicKey {
    open spec fn obeys_eq_spec() -> bool {
        true
    }

    open spec fn eq_spec(&self, other: &Self) -> bool {
        self@ == other@
    }
}

impl X25519PublicKey {
    /// Lowercase hexadecimal text of the key.
    pub fn to_hex(&self) -> (text: String)
        ensures
            text@ == hex_string(self@),
    {
        hex_encode(&self.bytes)
    }
}

/// An Ed25519 signature.
#[derive(Clone, Copy, Debug)]
pub struct Ed25519Signature {
    pub bytes: [u8; 64],
}

impl View for Ed25519Signature {
    type V = Seq<u8>;

    open spec fn view(&self) -> Seq<u8> {
        self.bytes@
    }
}

impl PartialEq for Ed25519Signature {
    fn eq(&self, other: &Self) -> (same: bool) {
        bytes_equal(&self.bytes, &other.bytes)
    }
}

impl Eq for Ed25519Signature {

}

impl vstd::std_specs::cmp::PartialEqSpecImpl for Ed25519Signature {
    open spec fn obeys_eq_spec() -> bool {
        true
    }

    open spec fn eq_spec(&self, other: &Self) -> bool {
        self@ == other@
    }
}

impl Ed25519Signature {
    /// Lowercase hexadecimal text of the signature.
    pub fn to_hex(&self) -> (text: String)
        ensures
            text@ == hex_string(self@),
    {
        hex_encode(&self.bytes)
    }
}

/// An X25519 secret key. It cannot be copied, printed or read back; it can
/// only be turned into its public key or used in a Diffie-Hellman exchange.
/// Its bytes are overwritten with zeros when it is dropped.
pub struct X25519Secret {
    bytes: [u8; 32],
}

impl Drop for X25519Secret {
    fn drop(&mut self)
        ensures
            final(self)@ == Seq::new(32, |i: int| 0u8),
        opens_invariants none
        no_unwind
    {
        wipe(&mut self.bytes);
    }
}

impl X25519Secret {
    /// The 32 secret bytes.
    pub closed spec fn view(&self) -> Seq<u8> {
        self.bytes@
    }

    /// A secret has 32 bytes.
    pub proof fn lemma_length(&self)
        ensures
            self@.len() == 32,
    {
    }

    /// The secret made of the given bytes.
    pub fn from_bytes(bytes: [u8; 32]) -> (secret: Self)
        ensures
            secret@ == bytes@,
    {
        X25519Secret { bytes }
    }

    /// A fresh secret from the operating system's random generator.
    pub fn generate() -> (secret: Self)
        ensures
            secret@.len() == 32,
    {
        X25519Secret { bytes: x25519_generate() }
    }

    /// Overwrites the secret with 32 zero bytes.
    pub fn erase(&mut self)
        ensures
            final(self)@ == Seq::new(32, |i: int| 0u8),
    {
        wipe(&mut self.bytes);
    }

    /// The public key that belongs to this secret.
    pub fn public_key(&self) -> (public: X25519PublicKey)
        ensures
            public@ == x25519_public(self@),
    {
        X25519PublicKey { bytes: x25519_public_key(&self.bytes) }
    }

    /// The Diffie-Hellman output of this secret and a peer's public key.
    ///
    /// Whatever secret lies behind `their_public`, its holder computes the
    /// same output from that secret and this secret's public key.
    pub fn diffie_hellman(&self, their_public: &X25519PublicKey) -> (shared: [u8; 32])
        ensures
            shared@ == x25519_shared(self@, their_public@),
            agreed(shared@, self@, their_public@),
    {
        x25519_diffie_hellman(&self.bytes, &their_public.bytes)
    }
}

/// `shared` is what the holder of any secret behind `their_public` computes
/// against the public key of `secret`.
pub open spec fn agreed(shared: Seq<u8>, secret: Seq<u8>, their_public: Seq<u8>) -> bool {
    forall|their_secret: Seq<u8>|
        their_secret.len() == 32 && their_public == #[trigger] x25519_public(their_secret)
            ==> shared == x25519_shared(their_secret, x25519_public(secret))
}

/// The digest both parties derive: the outcome of a handshake.
#[derive(Clone, Copy, Debug)]
pub struct SharedSecret {
    bytes: [u8; 32],
}

impl SharedSecret {
    /// The 32 bytes of the digest.
    pub closed spec fn view(&self) -> Seq<u8> {
        self.bytes@
    }

    /// The digest made of the given bytes.
    pub fn from_bytes(bytes: [u8; 32]) -> (digest: Self)
        ensures
            digest@ == bytes@,
    {
        SharedSecret { bytes }
    }

    /// The bytes of the digest.
    pub fn to_bytes(&self) -> (bytes: [u8; 32])
        ensures
            bytes@ == self@,
    {
        self.bytes
    }

    /// Lowercase hexadecimal text of the digest.
    pub fn to_hex(&self) -> (text: String)
        ensures
            text@ == hex_string(self@),
    {
        hex_encode(&self.bytes)
    }
}

impl PartialEq for SharedSecret {
    /// Compares all bytes in constant time.
    fn eq(&self, other: &Self) -> (same: bool) {
        digest_eq(&self.bytes, &other.bytes)
    }
}

impl Eq for SharedSecret {

}

impl vstd::std_specs::cmp::PartialEqSpecImpl for SharedSecret {
    open spec fn obeys_eq_spec() -> bool {
        true
    }

    open spec fn eq_spec(&self, other: &Self) -> bool {
        self@ == other@
    }
}

/// A TAI64N label: the moment a key was created.
#[derive(Clone, Copy, Debug, PartialEq, Eq, Structural)]
pub struct Timestamp {
    /// Seconds of the TAI64 label.
    pub seconds: u64,
    /// Nanoseconds within the second.
    pub nanos: u32,
}

impl Timestamp {
    /// A label is valid when its nanoseconds stay below one second.
    pub open spec fn is_valid(&self) -> bool {
        self.nanos < 1_000_000_000
    }

    /// The current time according to the system clock.
    pub fn now() -> (label: Self)
        ensures
            label.is_valid(),
    {
        let (seconds, nanos) = tai64n_now();
        Timestamp { seconds, nanos }
    }
}

} // verus!
