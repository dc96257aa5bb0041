//! The cryptographic and system primitives the handshake is built on.
//!
//! Every function of this module is one call into the crate that provides
//! the primitive, and its contract is assumed, not proved. What a primitive
//! computes is given a name here; the rest of the library is proved from
//! these contracts and takes nothing else on trust.
use vstd::prelude::*;

verus! {

/// The X25519 public key that belongs to the 32-byte secret `secret`.
pub uninterp spec fn x25519_public(secret: Seq<u8>) -> Seq<u8>;

/// The X25519 Diffie-Hellman output of the 32-byte secret `secret` and the
/// 32-byte public key `public`.
pub uninterp spec fn x25519_shared(secret: Seq<u8>, public: Seq<u8>) -> Seq<u8>;

/// The 32-byte BLAKE3 digest of `input`.
pub uninterp spec fn blake3_digest(input: Seq<u8>) -> Seq<u8>;

/// All bytes written into `hasher` since it was made, in order.
pub uninterp spec fn hasher_input(hasher: blake3::Hasher) -> Seq<u8>;

/// The Ed25519 signature over `message` made with the key pair that the
/// 32-byte secret seed `seed` expands to.
pub uninterp spec fn ed25519_signature(seed: Seq<u8>, message: Seq<u8>) -> Seq<u8>;

/// The lowercase hexadecimal digit for a value below sixteen.
pub open spec fn hex_digit(nibble: int) -> char {
    "0123456789abcdef"@[nibble]
}

/// Lowercase hexadecimal text of `bytes`: two digits for each byte, the high
/// half of the byte first.
pub open spec fn hex_string(bytes: Seq<u8>) -> Seq<char> {
    Seq::new(
        2 * bytes.len(),
        |i: int|
            if i % 2 == 0 {
                hex_digit(bytes[i / 2] as int / 16)
            } else {
                hex_digit(bytes[i / 2] as int % 16)
            },
    )
}

/// An incremental BLAKE3 state. What it holds is read through
/// [`hasher_input`].
#[verifier::external_type_specification]
#[verifier::external_body]
pub struct ExHasher(blake3::Hasher);

/// `x25519_dalek::StaticSecret::new` over `rand::rngs::OsRng`: a fresh secret
/// from the operating system's generator. Nothing is claimed of its value.
/// The generator aborts the process if the operating system cannot supply
/// random bytes.
#[verifier::external_body]
pub(crate) fn x25519_generate() -> (secret: [u8; 32]) {
    x25519_dalek::StaticSecret::new(rand::rngs::OsRng).to_bytes()
}

/// `x25519_dalek::PublicKey::from(&StaticSecret)`: the public key of a secret.
/// The result depends on the secret bytes alone.
#[verifier::external_body]
pub(crate) fn x25519_public_key(secret: &[u8; 32]) -> (public: [u8; 32])
    ensures
        public@ == x25519_public(secret@),
{
    x25519_dalek::PublicKey::from(&x25519_dalek::StaticSecret::from(*secret)).to_bytes()
}

/// `x25519_dalek::StaticSecret::diffie_hellman`: the shared value of a secret
/// and a peer's public key. The result depends on the two inputs alone, and
/// it is the value the peer computes from its own secret and this secret's
/// public key: both ends of a Diffie-Hellman exchange agree.
#[verifier::external_body]
pub(crate) fn x25519_diffie_hellman(secret: &[u8; 32], their_public: &[u8; 32]) -> (shared:
    [u8; 32])
    ensures
        shared@ == x25519_shared(secret@, their_public@),
        forall|their_secret: Seq<u8>|
            their_secret.len() == 32 && their_public@ == #[trigger] x25519_public(their_secret)
                ==> shared@ == x25519_shared(their_secret, x25519_public(secret@)),
{
    let secret = x25519_dalek::StaticSecret::from(*secret);
    secret.diffie_hellman(&x25519_dalek::PublicKey::from(*their_public)).to_bytes()
}

/// `zeroize::Zeroize::zeroize` on a byte array: every byte is overwritten with
/// zero, by writes that the compiler does not remove.
#[verifier::external_body]
pub(crate) fn wipe(bytes: &mut [u8; 32])
    ensures
        final(bytes)@ == Seq::new(32, |i: int| 0u8),
    opens_invariants none
    no_unwind
{
    zeroize::Zeroize::zeroize(bytes);
}

/// `blake3::Hasher::new`: a state into which nothing has been written.
#[verifier::external_body]
pub(crate) fn hasher_new() -> (hasher: blake3::Hasher)
    ensures
        hasher_input(hasher) == Seq::<u8>::empty(),
{
    blake3::Hasher::new()
}

/// `blake3::Hasher::update`: appends `input` to what has been written.
#[verifier::external_body]
pub(crate) fn hasher_update(hasher: &mut blake3::Hasher, input: &[u8])
    ensures
        hasher_input(*final(hasher)) == hasher_input(*old(hasher)) + input@,
{
    hasher.update(input);
}

/// `blake3::Hasher::finalize`: the digest of everything written so far.
#[verifier::external_body]
pub(crate) fn hasher_finalize(hasher: &blake3::Hasher) -> (digest: [u8; 32])
    ensures
        digest@ == blake3_digest(hasher_input(*hasher)),
{
    *hasher.finalize().as_bytes()
}

/// Equality of `blake3::Hash` values, which compares all 32 bytes in
/// constant time.
#[verifier::external_body]
pub(crate) fn digest_eq(left: &[u8; 32], right: &[u8; 32]) -> (same: bool)
    ensures
        same == (left@ == right@),
{
    blake3::Hash::from(*left) == blake3::Hash::from(*right)
}

/// `ed25519_dalek::SecretKey::generate` over `rand::rngs::OsRng`: a fresh
/// signing seed. Nothing is claimed of its value. The generator aborts the
/// process if the operating system cannot supply random bytes.
#[verifier::external_body]
pub(crate) fn ed25519_generate_seed() -> (seed: [u8; 32]) {
    ed25519_dalek::SecretKey::generate(&mut rand::rngs::OsRng).to_bytes()
}

/// `ed25519_dalek::Keypair::sign` with the key pair of `seed`. Signing is
/// deterministic: a signature depends on the seed and the message alone.
/// `None` would mean that the seed was refused as a secret key, which happens
/// to no seed of 32 bytes.
#[verifier::external_body]
pub(crate) fn ed25519_sign(seed: &[u8; 32], message: &[u8]) -> (signature: Option<[u8; 64]>)
    ensures
        signature is Some,
        signature matches Some(bytes) ==> bytes@ == ed25519_signature(seed@, message@),
{
    let secret = ed25519_dalek::SecretKey::from_bytes(seed).ok()?;
    let public = ed25519_dalek::PublicKey::from(&secret);
    let keypair = ed25519_dalek::Keypair { secret, public };
    Some(ed25519_dalek::Signer::sign(&keypair, message).to_bytes())
}

/// `tai64::Tai64N::now`: the system clock as a TAI64N label, whose seconds
/// and nanoseconds are handed back. The nanoseconds are below one second.
#[verifier::external_body]
pub(crate) fn tai64n_now() -> (label: (u64, u32))
    ensures
        label.1 < 1_000_000_000,
{
    let now = tai64::Tai64N::now();
    ((now.0).0, now.1)
}

/// `hex::encode`: lowercase hexadecimal text, two digits for each byte.
#[verifier::external_body]
pub(crate) fn hex_encode(bytes: &[u8]) -> (text: String)
    ensures
        text@ == hex_string(bytes@),
{
    hex::encode(bytes)
}

} // verus!
