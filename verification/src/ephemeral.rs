//! The ephemeral keys of the handshakes a party has started.
//!
//! One ephemeral key pair is held for each correspondent, under the identity
//! key of that correspondent. Starting another handshake with the same
//! correspondent replaces the pair held for it.
use crate::keys::{EphemeralKeypairView, EphemeralX25519Keypair};
use crate::types::{X25519PublicKey, X25519Secret, X3dhError};
use vstd::prelude::*;

verus! {

/// The pair at index `i` of `pairs` is held for the correspondent `peer`.
spec fn held_at(pairs: Seq<EphemeralKeypairView>, peer: Seq<u8>, i: int) -> bool {
    0 <= i < pairs.len() && pairs[i].associated_public_key == peer
}

/// No two pairs of `pairs` are held for the same correspondent.
spec fn one_per_peer(pairs: Seq<EphemeralKeypairView>) -> bool {
    forall|i: int, j: int|
        0 <= i < j < pairs.len() ==> (#[trigger] pairs[i]).associated_public_key != (
        #[trigger] pairs[j]).associated_public_key
}

/// The pairs of `pairs`, each under the correspondent it is held for.
spec fn by_peer(pairs: Seq<EphemeralKeypairView>) -> Map<Seq<u8>, EphemeralKeypairView> {
    Map::new(
        |peer: Seq<u8>| exists|i: int| held_at(pairs, peer, i),
        |peer: Seq<u8>| pairs[choose|i: int| held_at(pairs, peer, i)],
    )
}

/// Where no correspondent occurs twice, the pair at `i` is the one found
/// under its correspondent.
proof fn lemma_by_peer_at(pairs: Seq<EphemeralKeypairView>, i: int)
    requires
        one_per_peer(pairs),
        0 <= i < pairs.len(),
    ensures
        by_peer(pairs).dom().contains(pairs[i].associated_public_key),
        by_peer(pairs)[pairs[i].associated_public_key] == pairs[i],
{
    let peer = pairs[i].associated_public_key;
    assert(held_at(pairs, peer, i));
    let found = choose|n: int| held_at(pairs, peer, n);
    if found < i {
        assert(pairs[found].associated_public_key != pairs[i].associated_public_key);
    }
    if i < found {
        assert(pairs[i].associated_public_key != pairs[found].associated_public_key);
    }
}

/// Putting `added` in the place of the pair held for its correspondent
/// changes what is found under that correspondent and nothing else.
proof fn lemma_replaced(pairs: Seq<EphemeralKeypairView>, i: int, added: EphemeralKeypairView)
    requires
        one_per_peer(pairs),
        held_at(pairs, added.associated_public_key, i),
    ensures
        one_per_peer(pairs.update(i, added)),
        by_peer(pairs.update(i, added)) == by_peer(pairs).insert(
            added.associated_public_key,
            added,
        ),
{
    let after = pairs.update(i, added);
    let expected = by_peer(pairs).insert(added.associated_public_key, added);
    assert forall|a: int, b: int| 0 <= a < b < after.len() implies (
    #[trigger] after[a]).associated_public_key != (#[trigger] after[b]).associated_public_key by {
        assert(pairs[a].associated_public_key != pairs[b].associated_public_key);
    }
    assert forall|peer: Seq<u8>|
        by_peer(after).dom().contains(peer) == expected.dom().contains(peer) by {
        if by_peer(after).dom().contains(peer) {
            let n = choose|n: int| held_at(after, peer, n);
            assert(held_at(pairs, peer, n));
        }
        if by_peer(pairs).dom().contains(peer) {
            let n = choose|n: int| held_at(pairs, peer, n);
            assert(held_at(after, peer, n));
        }
        assert(held_at(after, added.associated_public_key, i));
    }
    assert forall|peer: Seq<u8>| by_peer(after).dom().contains(peer) implies by_peer(after)[peer]
        == expected[peer] by {
        let n = choose|n: int| held_at(after, peer, n);
        lemma_by_peer_at(after, n);
        if peer != added.associated_public_key {
            lemma_by_peer_at(pairs, n);
        }
    }
    assert(by_peer(after) =~= expected);
}

/// Adding `added`, for whose correspondent no pair is held, changes what is
/// found under that correspondent and nothing else.
proof fn lemma_pushed(pairs: Seq<EphemeralKeypairView>, added: EphemeralKeypairView)
    requires
        one_per_peer(pairs),
        forall|i: int| !held_at(pairs, added.associated_public_key, i),
    ensures
        one_per_peer(pairs.push(added)),
        by_peer(pairs.push(added)) == by_peer(pairs).insert(added.associated_public_key, added),
{
    let after = pairs.push(added);
    let last = pairs.len() as int;
    let expected = by_peer(pairs).insert(added.associated_public_key, added);
    assert forall|a: int, b: int| 0 <= a < b < after.len() implies (
    #[trigger] after[a]).associated_public_key != (#[trigger] after[b]).associated_public_key by {
        if b < last {
            assert(pairs[a].associated_public_key != pairs[b].associated_public_key);
        } else {
            assert(!held_at(pairs, added.associated_public_key, a));
        }
    }
    assert forall|peer: Seq<u8>|
        by_peer(after).dom().contains(peer) == expected.dom().contains(peer) by {
        if by_peer(after).dom().contains(peer) {
            let n = choose|n: int| held_at(after, peer, n);
            if n < last {
                assert(held_at(pairs, peer, n));
            }
        }
        if by_peer(pairs).dom().contains(peer) {
            let n = choose|n: int| held_at(pairs, peer, n);
            assert(held_at(after, peer, n));
        }
        assert(held_at(after, added.associated_public_key, last));
    }
    assert forall|peer: Seq<u8>| by_peer(after).dom().contains(peer) implies by_peer(after)[peer]
        == expected[peer] by {
        let n = choose|n: int| held_at(after, peer, n);
        lemma_by_peer_at(after, n);
        if peer != added.associated_public_key {
            lemma_by_peer_at(pairs, n);
        }
    }
    assert(by_peer(after) =~= expected);
}

/// Every pair is held under the correspondent it was made for, and its
/// public key is the one derived from its secret.
pub open spec fn pairs_wf(pairs: Map<Seq<u8>, EphemeralKeypairView>) -> bool {
    forall|peer: Seq<u8>| #[trigger]
        pairs.dom().contains(peer) ==> pairs[peer].wf() && pairs[peer].associated_public_key
            == peer
}

/// The ephemeral key pairs of a party, one for each correspondent.
pub struct EphemeralKeyExchange {
    pairs: Vec<EphemeralX25519Keypair>,
}

impl View for EphemeralKeyExchange {
    type V = Map<Seq<u8>, EphemeralKeypairView>;

    closed spec fn view(&self) -> Map<Seq<u8>, EphemeralKeypairView> {
        by_peer(self.listed())
    }
}

impl EphemeralKeyExchange {
    /// What the pairs hold, in the order in which they are stored.
    spec fn listed(&self) -> Seq<EphemeralKeypairView> {
        self.pairs@.map_values(|pair: EphemeralX25519Keypair| pair@)
    }

    /// At most one pair is held for each correspondent, and every pair is
    /// well-formed.
    pub closed spec fn wf(&self) -> bool {
        &&& one_per_peer(self.listed())
        &&& forall|i: int| 0 <= i < self.listed().len() ==> (#[trigger] self.listed()[i]).wf()
    }

    /// What a well-formed store guarantees of the pairs it holds.
    pub proof fn lemma_pairs_wf(&self)
        requires
            self.wf(),
        ensures
            pairs_wf(self@),
    {
        assert forall|peer: Seq<u8>| #[trigger] self@.dom().contains(peer) implies self@[peer].wf()
            && self@[peer].associated_public_key == peer by {
            let n = choose|n: int| held_at(self.listed(), peer, n);
            assert(self.listed()[n].wf());
        }
    }

    /// A store that holds no pair.
    pub fn new() -> (store: Self)
        ensures
            store.wf(),
            store@ == Map::<Seq<u8>, EphemeralKeypairView>::empty(),
    {
        let store = EphemeralKeyExchange { pairs: Vec::new() };
        assert(store@ =~= Map::<Seq<u8>, EphemeralKeypairView>::empty());
        store
    }

    /// The index of the pair held for `peer`.
    fn position(&self, peer: &X25519PublicKey) -> (found: Option<usize>)
        ensures
            match found {
                Some(i) => held_at(self.listed(), peer@, i as int),
                None => forall|i: int| !held_at(self.listed(), peer@, i),
            },
    {
        let mut i: usize = 0;
        while i < self.pairs.len()
            invariant
                i <= self.pairs@.len(),
                forall|j: int| 0 <= j < i ==> !held_at(self.listed(), peer@, j),
            decreases self.pairs@.len() - i,
        {
            if self.pairs[i].associated_public_key() == *peer {
                return Some(i);
            }
            i += 1;
        }
        None
    }

    /// Holds `pair` for its correspondent, in place of any pair held for that
    /// correspondent before.
    pub fn store(&mut self, pair: EphemeralX25519Keypair)
        requires
            old(self).wf(),
            pair@.wf(),
        ensures
            final(self).wf(),
            final(self)@ == old(self)@.insert(pair@.associated_public_key, pair@),
    {
        let ghost added = pair@;
        let ghost before = self.listed();
        let peer = pair.associated_public_key();
        match self.position(&peer) {
            Some(i) => {
                self.pairs[i] = pair;
                proof {
                    assert(self.listed() =~= before.update(i as int, added));
                    lemma_replaced(before, i as int, added);
                }
            },
            None => {
                self.pairs.push(pair);
                proof {
                    assert(self.listed() =~= before.push(added));
                    lemma_pushed(before, added);
                }
            },
        }
        assert forall|n: int| 0 <= n < self.listed().len() implies (#[trigger] self.listed()[n]).wf(
        ) by {
            if n < before.len() && self.listed()[n] != added {
                assert(before[n].wf());
            }
        }
    }

    /// Makes a fresh key pair for the correspondent `peer`, holds it in place
    /// of any pair held for that correspondent before, and returns its public
    /// key.
    pub fn create(&mut self, peer: X25519PublicKey) -> (public: X25519PublicKey)
        requires
            old(self).wf(),
        ensures
            final(self).wf(),
            final(self)@.dom() == old(self)@.dom().insert(peer@),
            final(self)@[peer@].prekey == public@,
            final(self)@[peer@].associated_public_key == peer@,
            final(self)@[peer@].wf(),
            final(self)@[peer@].timestamp.is_valid(),
            final(self)@.remove(peer@) == old(self)@.remove(peer@),
    {
        let pair = EphemeralX25519Keypair::new(peer);
        let public = pair.prekey();
        self.store(pair);
        assert(self@.remove(peer@) =~= old(self)@.remove(peer@));
        assert(self@.dom() =~= old(self)@.dom().insert(peer@));
        public
    }

    /// The secret of the pair held for the correspondent `peer`.
    ///
    /// Fails with `KeyNotFound` exactly when no pair is held for `peer`.
    pub fn lookup(&self, peer: &X25519PublicKey) -> (found: Result<&X25519Secret, X3dhError>)
        requires
            self.wf(),
        ensures
            match found {
                Ok(secret) => self@.dom().contains(peer@) && secret@ == self@[peer@].secret,
                Err(error) => error == X3dhError::KeyNotFound && !self@.dom().contains(peer@),
            },
    {
        match self.position(peer) {
            Some(i) => {
                proof {
                    lemma_by_peer_at(self.listed(), i as int);
                }
                Ok(self.pairs[i].secret())
            },
            None => Err(X3dhError::KeyNotFound),
        }
    }
}

} // verus!
