//! The public snapshot a party publishes, and its form on the wire.
//!
//! On the wire a bundle is 160 bytes, the four fields one after the other:
//! identity key (32), signed prekey (32), signature over the signed prekey
//! (64), one-time prekey (32).
use crate::primitives::hex_string;
use crate::types::{Ed25519Signature, X25519PublicKey};
use vstd::prelude::*;
use vstd::string::StringExecFns;

verus! {

/// Length of a bundle on the wire.
pub const BUNDLE_WIRE_LENGTH: usize = 160;

/// What a [`PrekeyBundle`] holds.
pub struct PrekeyBundleView {
    pub ik: Seq<u8>,
    pub spk: Seq<u8>,
    pub spk_signature: Seq<u8>,
    pub opk: Seq<u8>,
}

impl PrekeyBundleView {
    /// Every field has the length of its kind.
    pub open spec fn wf(self) -> bool {
        &&& self.ik.len() == 32
        &&& self.spk.len() == 32
        &&& self.spk_signature.len() == 64
        &&& self.opk.len() == 32
    }

    /// The bundle on the wire: the four fields in order.
    pub open spec fn encoded(self) -> Seq<u8> {
        self.ik + self.spk + self.spk_signature + self.opk
    }

    /// The bundle that `bytes` stand for, if they have the length of one.
    pub open spec fn decoded(bytes: Seq<u8>) -> Option<PrekeyBundleView> {
        if bytes.len() == 160 {
            Some(
                PrekeyBundleView {
                    ik: bytes.subrange(0, 32),
                    spk: bytes.subrange(32, 64),
                    spk_signature: bytes.subrange(64, 128),
                    opk: bytes.subrange(128, 160),
                },
            )
        } else {
            None
        }
    }

    /// The text shown for a bundle. A bundle holds no secret.
    pub open spec fn described(self) -> Seq<char> {
        "PrekeyBundle { ik: "@ + hex_string(self.ik) + ", spk: "@ + hex_string(self.spk)
            + ", spk_signature: "@ + hex_string(self.spk_signature) + ", opk: "@ + hex_string(
            self.opk,
        ) + " }"@
    }
}

/// Decoding what was encoded gives the bundle back.
pub proof fn lemma_decode_encode(bundle: PrekeyBundleView)
    requires
        bundle.wf(),
    ensures
        PrekeyBundleView::decoded(bundle.encoded()) == Some(bundle),
{
    let bytes = bundle.encoded();
    assert(bytes.subrange(0, 32) =~= bundle.ik);
    assert(bytes.subrange(32, 64) =~= bundle.spk);
    assert(bytes.subrange(64, 128) =~= bundle.spk_signature);
    assert(bytes.subrange(128, 160) =~= bundle.opk);
}

/// Encoding what was decoded gives the bytes back.
pub proof fn lemma_encode_decode(bytes: Seq<u8>)
    requires
        bytes.len() == 160,
    ensures
        PrekeyBundleView::decoded(bytes) matches Some(bundle) && bundle.wf() && bundle.encoded()
            == bytes,
{
    let bundle = PrekeyBundleView::decoded(bytes)->0;
    assert(bundle.encoded() =~= bytes);
}

/// The public keys a party publishes so that others can start a handshake
/// with it. A bundle holds no secret and can be copied freely.
#[derive(Clone, Copy, Debug)]
pub struct PrekeyBundle {
    /// Identity key.
    pub ik: X25519PublicKey,
    /// Signed prekey.
    pub spk: X25519PublicKey,
    /// Signature over the signed prekey.
    pub spk_signature: Ed25519Signature,
    /// One one-time prekey.
    pub opk: X25519PublicKey,
}

impl View for PrekeyBundle {
    type V = PrekeyBundleView;

    open spec fn view(&self) -> PrekeyBundleView {
        PrekeyBundleView {
            ik: self.ik@,
            spk: self.spk@,
            spk_signature: self.spk_signature@,
            opk: self.opk@,
        }
    }
}

impl PartialEq for PrekeyBundle {
    fn eq(&self, other: &Self) -> (same: bool) {
        self.ik == other.ik && self.spk == other.spk && self.spk_signature == other.spk_signature
            && self.opk == other.opk
    }
}

impl Eq for PrekeyBundle {

}

impl vstd::std_specs::cmp::PartialEqSpecImpl for PrekeyBundle {
    open spec fn obeys_eq_spec() -> bool {
        true
    }

    open spec fn eq_spec(&self, other: &Self) -> bool {
        self@ == other@
    }
}

/// Appends `bytes` to `out`.
fn append_bytes(out: &mut Vec<u8>, bytes: &[u8])
    ensures
        final(out)@ == old(out)@ + bytes@,
{
    let mut i: usize = 0;
    while i < bytes.len()
        invariant
            i <= bytes@.len(),
            out@ == old(out)@ + bytes@.subrange(0, i as int),
        decreases bytes@.len() - i,
    {
        out.push(bytes[i]);
        assert(bytes@.subrange(0, i + 1) =~= bytes@.subrange(0, i as int).push(bytes@[i as int]));
        i += 1;
    }
    assert(bytes@.subrange(0, i as int) =~= bytes@);
}

/// The `N` bytes of `bytes` that begin at `start`.
fn array_at<const N: usize>(bytes: &[u8], start: usize) -> (out: [u8; N])
    requires
        start + N <= bytes@.len(),
    ensures
        out@ == bytes@.subrange(start as int, start + N),
{
    let length = bytes.len();
    let mut out = [0u8;N];
    let mut i: usize = 0;
    while i < N
        invariant
            i <= N,
            start + N <= length,
            length == bytes@.len(),
            forall|j: int| 0 <= j < i ==> out@[j] == bytes@[start + j],
        decreases N - i,
    {
        out[i] = bytes[start + i];
        i += 1;
    }
    assert(out@ =~= bytes@.subrange(start as int, start + N));
    out
}

impl PrekeyBundle {
    /// The bundle on the wire: 160 bytes from which [`PrekeyBundle::from_bytes`]
    /// gives the bundle back.
    pub fn to_bytes(&self) -> (bytes: Vec<u8>)
        ensures
            bytes@ == self@.encoded(),
            bytes@.len() == BUNDLE_WIRE_LENGTH,
            PrekeyBundleView::decoded(bytes@) == Some(self@),
    {
        let mut bytes: Vec<u8> = Vec::new();
        append_bytes(&mut bytes, &self.ik.bytes);
        append_bytes(&mut bytes, &self.spk.bytes);
        append_bytes(&mut bytes, &self.spk_signature.bytes);
        append_bytes(&mut bytes, &self.opk.bytes);
        proof {
            assert(bytes@ =~= self@.encoded());
            lemma_decode_encode(self@);
        }
        bytes
    }

    /// The bundle that `bytes` stand for: the one whose form on the wire is
    /// `bytes`. `None` exactly when `bytes` do not have the length of a
    /// bundle.
    pub fn from_bytes(bytes: &[u8]) -> (bundle: Option<Self>)
        ensures
            match bundle {
                Some(bundle) => {
                    &&& PrekeyBundleView::decoded(bytes@) == Some(bundle@)
                    &&& bundle@.encoded() == bytes@
                },
                None => bytes@.len() != BUNDLE_WIRE_LENGTH,
            },
    {
        if bytes.len() != BUNDLE_WIRE_LENGTH {
            return None;
        }
        proof {
            lemma_encode_decode(bytes@);
        }
        Some(
            PrekeyBundle {
                ik: X25519PublicKey { bytes: array_at::<32>(bytes, 0) },
                spk: X25519PublicKey { bytes: array_at::<32>(bytes, 32) },
                spk_signature: Ed25519Signature { bytes: array_at::<64>(bytes, 64) },
                opk: X25519PublicKey { bytes: array_at::<32>(bytes, 128) },
            },
        )
    }

    /// The bundle as text, every field in hexadecimal.
    pub fn describe(&self) -> (text: String)
        ensures
            text@ == self@.described(),
    {
        let mut text = String::from_str("PrekeyBundle { ik: ");
        text.append(self.ik.to_hex().as_str());
        text.append(", spk: ");
        text.append(self.spk.to_hex().as_str());
        text.append(", spk_signature: ");
        text.append(self.spk_signature.to_hex().as_str());
        text.append(", opk: ");
        text.append(self.opk.to_hex().as_str());
        text.append(" }");
        text
    }
}

} // verus!
