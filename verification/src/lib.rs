//! Extended Triple Diffie-Hellman (X3DH) key agreement.
//!
//! Two parties that are never online at the same time derive the same shared
//! secret. The responder publishes a bundle of public keys: its identity key,
//! a signed prekey and one one-time prekey. The initiator makes an ephemeral
//! key and runs four Diffie-Hellman exchanges against the bundle; the
//! responder runs the same four exchanges from its side. Both hash the four
//! outputs, in the same order, into one digest: the shared secret.
//!
//! [`X3DH`] is a party of the handshake. [`PrekeyPool`] holds its signed
//! prekey and one-time prekeys, [`EphemeralKeyExchange`] the ephemeral keys
//! of the handshakes it has started, and [`SharedSecretEngine`] runs the
//! exchanges. The module [`primitives`] names the outside primitives that
//! everything else is proved from.
pub mod engine;
pub mod ephemeral;
pub mod keys;
pub mod prekey_bundle;
pub mod prekey_pool;
pub mod primitives;
pub mod sig_compute;
pub mod types;
pub mod xxxdh;

pub use engine::SharedSecretEngine;
pub use ephemeral::EphemeralKeyExchange;
pub use keys::{EphemeralX25519Keypair, OneTimePreKey, SignedPrekey};
pub use prekey_bundle::PrekeyBundle;
pub use prekey_pool::PrekeyPool;
pub use sig_compute::SigCompute;
pub use types::{
    Ed25519Signature, SharedSecret, Timestamp, X25519PublicKey, X25519Secret, X3dhError,
};
pub use xxxdh::X3DH;
