//! A signing capability that signs with a throw-away Ed25519 key.
use crate::primitives::{ed25519_generate_seed, ed25519_sign, ed25519_signature};
use crate::types::{Ed25519Signature, X3dhError};
use vstd::prelude::*;

verus! {

/// Signs with an Ed25519 key pair that is made for the one signature and
/// then forgotten.
pub struct SigCompute;

impl SigCompute {
    /// The signature over `value` made with the key pair of `seed`.
    pub fn sign_with_seed(seed: &[u8; 32], value: &[u8]) -> (signed: Result<
        Ed25519Signature,
        X3dhError,
    >)
        ensures
            signed matches Ok(signature) && signature@ == ed25519_signature(seed@, value@),
    {
        match ed25519_sign(seed, value) {
            Some(bytes) => Ok(Ed25519Signature { bytes }),
            None => Err(X3dhError::SignatureComputationFailure),
        }
    }

    /// A signature over `value` made with a fresh random key pair.
    pub fn sign(value: &[u8]) -> (signed: Result<Ed25519Signature, X3dhError>)
        ensures
            signed matches Ok(signature) && exists|seed: Seq<u8>|
                seed.len() == 32 && signature@ == #[trigger] ed25519_signature(seed, value@),
    {
        let seed = ed25519_generate_seed();
        let signed = Self::sign_with_seed(&seed, value);
        assert(signed->Ok_0@ == ed25519_signature(seed@, value@));
        signed
    }
}

} // verus!
