//! The signed prekey and the one-time prekeys of a party.
//!
//! The pool offers its keys for publication and hands out the secret of a
//! one-time prekey exactly once. A one-time prekey that has been used is
//! stale: it stays in the pool, is never offered again and cannot be used a
//! second time. No key is ever added to a pool after it has been made.
use crate::keys::{
    signed_by, signer_accepts, signer_may_fail, OneTimePreKey, OneTimePreKeyView, SignedPrekey,
    SignedPrekeyView,
};
use crate::types::{Ed25519Signature, X25519PublicKey, X25519Secret, X3dhError};
use vstd::prelude::*;
use vstd::string::StringExecFns;

verus! {

/// Number of one-time prekeys a fresh pool is made with.
pub const ONE_TIME_PREKEY_COUNT: usize = 10;

/// What a pool publishes: its signed prekey with the signature, and one
/// unused one-time prekey.
#[derive(Clone, Copy, Debug)]
pub struct BundleFragment {
    /// Signed prekey.
    pub spk: X25519PublicKey,
    /// Signature over the signed prekey.
    pub spk_signature: Ed25519Signature,
    /// One unused one-time prekey.
    pub opk: X25519PublicKey,
}

/// Some key of `keys` has the public key `prekey`.
pub open spec fn occurs(keys: Seq<OneTimePreKeyView>, prekey: Seq<u8>) -> bool {
    exists|i: int| 0 <= i < keys.len() && #[trigger] keys[i].prekey == prekey
}

/// No two keys of `keys` have the same public key.
pub open spec fn distinct(keys: Seq<OneTimePreKeyView>) -> bool {
    forall|i: int, j: int|
        0 <= i < j < keys.len() ==> #[trigger] keys[i].prekey != #[trigger] keys[j].prekey
}

/// The keys of `keys` in order, without those whose public key already
/// occurred earlier in `keys`.
pub open spec fn first_of_each(keys: Seq<OneTimePreKeyView>) -> Seq<OneTimePreKeyView>
    decreases keys.len(),
{
    if keys.len() == 0 {
        keys
    } else {
        let earlier = first_of_each(keys.drop_last());
        if occurs(earlier, keys.last().prekey) {
            earlier
        } else {
            earlier.push(keys.last())
        }
    }
}

/// The texts shown for `keys`, in order, with `, ` between them.
pub open spec fn listed(keys: Seq<OneTimePreKeyView>) -> Seq<char>
    decreases keys.len(),
{
    if keys.len() == 0 {
        Seq::empty()
    } else if keys.len() == 1 {
        keys[0].described()
    } else {
        listed(keys.drop_last()) + ", "@ + keys.last().described()
    }
}

/// What a [`PrekeyPool`] holds: the signed prekey, and the one-time prekeys
/// in the order in which they were put in.
pub struct PrekeyPoolView {
    pub signed_prekey: SignedPrekeyView,
    pub one_time: Seq<OneTimePreKeyView>,
}

impl PrekeyPoolView {
    /// Every public key is the one derived from its secret, and no two
    /// one-time prekeys share a public key.
    pub open spec fn wf(self) -> bool {
        &&& self.signed_prekey.wf()
        &&& forall|i: int| 0 <= i < self.one_time.len() ==> (#[trigger] self.one_time[i]).wf()
        &&& distinct(self.one_time)
    }

    /// The one-time prekey at `i` is unused and all before it are stale.
    pub open spec fn is_next(self, i: int) -> bool {
        &&& 0 <= i < self.one_time.len()
        &&& !self.one_time[i].stale
        &&& forall|j: int| 0 <= j < i ==> (#[trigger] self.one_time[j]).stale
    }

    /// The public key of the first unused one-time prekey, if one is left.
    pub open spec fn offer(self) -> Option<Seq<u8>> {
        if exists|i: int| self.is_next(i) {
            Some(self.one_time[choose|i: int| self.is_next(i)].prekey)
        } else {
            None
        }
    }

    /// The one-time prekey at `i` has the public key `key` and is unused.
    pub open spec fn is_available_at(self, key: Seq<u8>, i: int) -> bool {
        &&& 0 <= i < self.one_time.len()
        &&& self.one_time[i].prekey == key
        &&& !self.one_time[i].stale
    }

    /// The pool holds an unused one-time prekey with the public key `key`.
    pub open spec fn available(self, key: Seq<u8>) -> bool {
        exists|i: int| self.is_available_at(key, i)
    }

    /// The one-time prekey at `i` has the public key `key` and is stale.
    pub open spec fn is_spent_at(self, key: Seq<u8>, i: int) -> bool {
        &&& 0 <= i < self.one_time.len()
        &&& self.one_time[i].prekey == key
        &&& self.one_time[i].stale
    }

    /// The pool holds a stale one-time prekey with the public key `key`.
    pub open spec fn spent(self, key: Seq<u8>) -> bool {
        exists|i: int| self.is_spent_at(key, i)
    }

    /// The secret of the unused one-time prekey with the public key `key`.
    pub open spec fn secret_of(self, key: Seq<u8>) -> Seq<u8> {
        self.one_time[choose|i: int| self.is_available_at(key, i)].secret
    }

    /// The pool after the one-time prekey with the public key `key` has been
    /// used: that key is stale, everything else is as before.
    pub open spec fn after_consume(self, key: Seq<u8>) -> Self {
        PrekeyPoolView {
            signed_prekey: self.signed_prekey,
            one_time: Seq::new(
                self.one_time.len(),
                |i: int|
                    if self.one_time[i].prekey == key {
                        self.one_time[i].spent()
                    } else {
                        self.one_time[i]
                    },
            ),
        }
    }

    /// `later` is this pool at a later time: the same keys, of which more may
    /// have become stale and none has become unused again.
    pub open spec fn evolves_to(self, later: Self) -> bool {
        &&& later.signed_prekey == self.signed_prekey
        &&& later.one_time.len() == self.one_time.len()
        &&& forall|i: int|
            0 <= i < self.one_time.len() ==> {
                &&& (#[trigger] later.one_time[i]).prekey == self.one_time[i].prekey
                &&& later.one_time[i].secret == self.one_time[i].secret
                &&& later.one_time[i].timestamp == self.one_time[i].timestamp
                &&& self.one_time[i].stale ==> later.one_time[i].stale
            }
    }

    /// The text shown for the pool: its keys without their secrets.
    pub open spec fn described(self) -> Seq<char> {
        "PrekeyPool { signed_prekey: "@ + self.signed_prekey.described() + ", onetime_prekeys: ["@
            + listed(self.one_time) + "] }"@
    }
}

/// `keys` are `count` well-formed keys, all unused and made at valid times.
pub open spec fn freshly_made(keys: Seq<OneTimePreKeyView>, count: nat) -> bool {
    &&& keys.len() == count
    &&& forall|i: int|
        0 <= i < keys.len() ==> {
            &&& (#[trigger] keys[i]).wf()
            &&& !keys[i].stale
            &&& keys[i].timestamp.is_valid()
        }
}

/// Two lists of keys show the same public parts: as many keys, with the same
/// public keys and the same marks of use.
pub open spec fn same_public_keys(a: Seq<OneTimePreKeyView>, b: Seq<OneTimePreKeyView>) -> bool {
    &&& a.len() == b.len()
    &&& forall|i: int|
        0 <= i < a.len() ==> (#[trigger] a[i]).prekey == b[i].prekey && a[i].stale == b[i].stale
}

/// The text shown for a list of keys depends on their public parts alone.
pub proof fn lemma_listed_hides_secrets(a: Seq<OneTimePreKeyView>, b: Seq<OneTimePreKeyView>)
    requires
        same_public_keys(a, b),
    ensures
        listed(a) == listed(b),
    decreases a.len(),
{
    if a.len() > 0 {
        let front_a = a.drop_last();
        let front_b = b.drop_last();
        assert(a[a.len() - 1].prekey == b[b.len() - 1].prekey);
        assert(a[0].prekey == b[0].prekey);
        assert forall|i: int| 0 <= i < front_a.len() implies (#[trigger] front_a[i]).prekey
            == front_b[i].prekey && front_a[i].stale == front_b[i].stale by {
            assert(a[i].prekey == b[i].prekey);
        }
        lemma_listed_hides_secrets(front_a, front_b);
    }
}

/// Among distinct keys, a public key is found at one index only.
proof fn lemma_one_index(keys: Seq<OneTimePreKeyView>, i: int, j: int)
    requires
        distinct(keys),
        0 <= i < keys.len(),
        0 <= j < keys.len(),
        keys[i].prekey == keys[j].prekey,
    ensures
        i == j,
{
    if i < j {
        assert(keys[i].prekey != keys[j].prekey);
    }
    if j < i {
        assert(keys[j].prekey != keys[i].prekey);
    }
}

/// A well-formed pool stays well-formed as it evolves.
pub proof fn lemma_evolution_keeps_wf(pool: PrekeyPoolView, later: PrekeyPoolView)
    requires
        pool.wf(),
        pool.evolves_to(later),
    ensures
        later.wf(),
{
    assert forall|i: int| 0 <= i < later.one_time.len() implies (#[trigger] later.one_time[i]).wf(
    ) by {
        assert(pool.one_time[i].wf());
    }
    assert forall|i: int, j: int| 0 <= i < j < later.one_time.len() implies (
    #[trigger] later.one_time[i]).prekey != (#[trigger] later.one_time[j]).prekey by {
        assert(pool.one_time[i].prekey != pool.one_time[j].prekey);
    }
}

/// Every pool evolves to itself, and evolution carries on: if a pool evolves
/// to a second and that to a third, the first evolves to the third.
pub proof fn lemma_evolution_order(
    first: PrekeyPoolView,
    second: PrekeyPoolView,
    third: PrekeyPoolView,
)
    requires
        first.evolves_to(second),
        second.evolves_to(third),
    ensures
        first.evolves_to(first),
        first.evolves_to(third),
{
    assert forall|i: int| 0 <= i < first.one_time.len() implies {
        &&& (#[trigger] third.one_time[i]).prekey == first.one_time[i].prekey
        &&& third.one_time[i].secret == first.one_time[i].secret
        &&& third.one_time[i].timestamp == first.one_time[i].timestamp
        &&& first.one_time[i].stale ==> third.one_time[i].stale
    } by {
        assert(second.one_time[i].prekey == first.one_time[i].prekey);
    }
}

/// Using a one-time prekey is a step of evolution after which that key is
/// stale.
pub proof fn lemma_consume_evolves(pool: PrekeyPoolView, key: Seq<u8>)
    requires
        pool.available(key),
    ensures
        pool.evolves_to(pool.after_consume(key)),
        pool.after_consume(key).spent(key),
        !pool.after_consume(key).available(key),
{
    let i = choose|i: int| pool.is_available_at(key, i);
    assert(pool.after_consume(key).is_spent_at(key, i));
}

/// A one-time prekey that has been used is never offered again, however the
/// pool evolves afterwards.
pub proof fn lemma_consumed_never_offered(
    pool: PrekeyPoolView,
    key: Seq<u8>,
    later: PrekeyPoolView,
)
    requires
        pool.wf(),
        pool.spent(key),
        pool.evolves_to(later),
    ensures
        later.offer() != Some(key),
        !later.available(key),
{
    lemma_evolution_keeps_wf(pool, later);
    let stale = choose|i: int| pool.is_spent_at(key, i);
    assert(later.is_spent_at(key, stale));
    if later.offer() == Some(key) {
        let next = choose|i: int| later.is_next(i);
        assert(later.is_next(next));
        lemma_one_index(later.one_time, next, stale);
    }
    if later.available(key) {
        let unused = choose|i: int| later.is_available_at(key, i);
        lemma_one_index(later.one_time, unused, stale);
    }
}

/// Keys that are already distinct are all kept.
pub proof fn lemma_first_of_each_distinct(keys: Seq<OneTimePreKeyView>)
    requires
        distinct(keys),
    ensures
        first_of_each(keys) == keys,
    decreases keys.len(),
{
    if keys.len() > 0 {
        let front = keys.drop_last();
        let last = keys.len() - 1;
        assert forall|i: int, j: int| 0 <= i < j < front.len() implies (#[trigger] front[i]).prekey
            != (#[trigger] front[j]).prekey by {
            assert(keys[i].prekey != keys[j].prekey);
        }
        lemma_first_of_each_distinct(front);
        if occurs(front, keys.last().prekey) {
            let i = choose|i: int|
                0 <= i < front.len() && #[trigger] front[i].prekey == keys.last().prekey;
            lemma_one_index(keys, i, last);
        }
        assert(front.push(keys.last()) =~= keys);
    }
}

/// The signed prekey and the one-time prekeys of a party.
pub struct PrekeyPool {
    signed_prekey: SignedPrekey,
    onetime_prekeys: Vec<OneTimePreKey>,
}

impl View for PrekeyPool {
    type V = PrekeyPoolView;

    closed spec fn view(&self) -> PrekeyPoolView {
        PrekeyPoolView {
            signed_prekey: self.signed_prekey@,
            one_time: self.onetime_prekeys@.map_values(|key: OneTimePreKey| key@),
        }
    }
}

impl PrekeyPool {
    /// The index of the one-time prekey with the public key `key`.
    fn position(&self, key: &X25519PublicKey) -> (found: Option<usize>)
        ensures
            match found {
                Some(i) => i < self@.one_time.len() && self@.one_time[i as int].prekey == key@,
                None => !occurs(self@.one_time, key@),
            },
    {
        let mut i: usize = 0;
        while i < self.onetime_prekeys.len()
            invariant
                i <= self.onetime_prekeys@.len(),
                forall|j: int| 0 <= j < i ==> (#[trigger] self@.one_time[j]).prekey != key@,
            decreases self.onetime_prekeys@.len() - i,
        {
            if self.onetime_prekeys[i].prekey() == *key {
                return Some(i);
            }
            i += 1;
        }
        None
    }

    /// Puts `key` into the pool unless a key with the same public key is
    /// already there.
    fn insert(&mut self, key: OneTimePreKey)
        requires
            old(self)@.wf(),
            key@.wf(),
        ensures
            final(self)@.wf(),
            final(self)@.signed_prekey == old(self)@.signed_prekey,
            final(self)@.one_time == if occurs(old(self)@.one_time, key@.prekey) {
                old(self)@.one_time
            } else {
                old(self)@.one_time.push(key@)
            },
    {
        let prekey = key.prekey();
        if self.position(&prekey).is_none() {
            self.onetime_prekeys.push(key);
            assert(self@.one_time =~= old(self)@.one_time.push(key@));
        }
    }

    /// The pool of `signed_prekey` and `keys`. Where several of `keys` have
    /// the same public key, the first of them is taken; where no two have,
    /// the pool holds them all.
    pub fn from_keys(signed_prekey: SignedPrekey, keys: Vec<OneTimePreKey>) -> (pool: Self)
        requires
            signed_prekey@.wf(),
            forall|i: int| 0 <= i < keys@.len() ==> (#[trigger] keys@[i])@.wf(),
        ensures
            pool@.wf(),
            pool@.signed_prekey == signed_prekey@,
            pool@.one_time == first_of_each(keys@.map_values(|key: OneTimePreKey| key@)),
            distinct(keys@.map_values(|key: OneTimePreKey| key@)) ==> pool@.one_time
                == keys@.map_values(|key: OneTimePreKey| key@),
    {
        let ghost all = keys@.map_values(|key: OneTimePreKey| key@);
        let mut keys = keys;
        let mut pool = PrekeyPool { signed_prekey, onetime_prekeys: Vec::new() };
        assert(pool@.one_time =~= first_of_each(all.take(0)));
        let mut done: usize = 0;
        let total = keys.len();
        while keys.len() > 0
            invariant
                pool@.wf(),
                pool@.signed_prekey == signed_prekey@,
                done + keys@.len() == total,
                total == all.len(),
                pool@.one_time == first_of_each(all.take(done as int)),
                keys@.map_values(|key: OneTimePreKey| key@) == all.skip(done as int),
                forall|i: int| 0 <= i < all.len() ==> (#[trigger] all[i]).wf(),
            decreases keys@.len(),
        {
            let ghost rest = keys@.map_values(|key: OneTimePreKey| key@);
            let key = keys.remove(0);
            proof {
                assert(key@ == rest[0]);
                assert forall|i: int| 0 <= i < keys@.len() implies keys@[i]@ == all.skip(
                    done + 1,
                )[i] by {
                    assert(keys@[i]@ == rest[i + 1]);
                }
                assert(keys@.map_values(|key: OneTimePreKey| key@) =~= all.skip(done + 1));
                assert(all.take(done + 1).drop_last() =~= all.take(done as int));
            }
            pool.insert(key);
            done += 1;
        }
        proof {
            assert(all.take(done as int) =~= all);
            if distinct(all) {
                lemma_first_of_each_distinct(all);
            }
        }
        pool
    }

    /// A fresh pool: a new signed prekey, signed by `compute_signature`, and
    /// ten new one-time prekeys, all unused. Should two of the ten have the
    /// same public key, the pool holds the first of them only.
    ///
    /// Fails with `SignatureComputationFailure` when the signer fails.
    pub fn initialize<F: Fn(&[u8]) -> Result<Ed25519Signature, X3dhError>>(
        compute_signature: F,
    ) -> (made: Result<Self, X3dhError>)
        requires
            signer_accepts(compute_signature),
        ensures
            match made {
                Ok(pool) => {
                    &&& pool@.wf()
                    &&& signed_by(
                        compute_signature,
                        pool@.signed_prekey.prekey,
                        pool@.signed_prekey.signature,
                    )
                    &&& pool@.signed_prekey.timestamp.is_valid()
                    &&& exists|made: Seq<OneTimePreKeyView>|
                        freshly_made(made, ONE_TIME_PREKEY_COUNT as nat) && pool@.one_time
                            == #[trigger] first_of_each(made)
                    &&& 1 <= pool@.one_time.len() <= ONE_TIME_PREKEY_COUNT
                    &&& forall|i: int|
                        0 <= i < pool@.one_time.len() ==> !(#[trigger] pool@.one_time[i]).stale
                },
                Err(error) => error == X3dhError::SignatureComputationFailure && signer_may_fail(
                    compute_signature,
                ),
            },
    {
        let signed_prekey = match SignedPrekey::new(compute_signature) {
            Ok(signed_prekey) => signed_prekey,
            Err(error) => {
                return Err(error);
            },
        };
        let mut pool = PrekeyPool { signed_prekey, onetime_prekeys: Vec::new() };
        let ghost mut made: Seq<OneTimePreKeyView> = Seq::empty();
        assert(pool@.one_time =~= first_of_each(made));
        let mut count: usize = 0;
        while count < ONE_TIME_PREKEY_COUNT
            invariant
                count <= ONE_TIME_PREKEY_COUNT,
                pool@.wf(),
                pool@.signed_prekey == signed_prekey@,
                freshly_made(made, count as nat),
                pool@.one_time == first_of_each(made),
                pool@.one_time.len() <= count,
                count > 0 ==> pool@.one_time.len() >= 1,
                forall|i: int|
                    0 <= i < pool@.one_time.len() ==> !(#[trigger] pool@.one_time[i]).stale,
            decreases ONE_TIME_PREKEY_COUNT - count,
        {
            let key = OneTimePreKey::new();
            proof {
                assert(made.push(key@).drop_last() =~= made);
                made = made.push(key@);
            }
            pool.insert(key);
            count += 1;
        }
        Ok(pool)
    }

    /// The signed prekey.
    pub fn signed_prekey(&self) -> (signed_prekey: &SignedPrekey)
        ensures
            signed_prekey@ == self@.signed_prekey,
    {
        &self.signed_prekey
    }

    /// What the pool offers for publication: the signed prekey, its signature
    /// and the first one-time prekey that is still unused.
    ///
    /// Fails with `PoolExhausted` exactly when no unused one-time prekey is
    /// left.
    pub fn publish(&self) -> (published: Result<BundleFragment, X3dhError>)
        ensures
            match published {
                Ok(fragment) => {
                    &&& fragment.spk@ == self@.signed_prekey.prekey
                    &&& fragment.spk_signature@ == self@.signed_prekey.signature
                    &&& self@.offer() == Some(fragment.opk@)
                    &&& self@.available(fragment.opk@)
                },
                Err(error) => error == X3dhError::PoolExhausted && self@.offer() is None,
            },
    {
        let mut i: usize = 0;
        while i < self.onetime_prekeys.len()
            invariant
                i <= self.onetime_prekeys@.len(),
                forall|j: int| 0 <= j < i ==> (#[trigger] self@.one_time[j]).stale,
            decreases self.onetime_prekeys@.len() - i,
        {
            if !self.onetime_prekeys[i].is_stale() {
                proof {
                    assert(self@.is_next(i as int));
                    assert(self@.is_available_at(self@.one_time[i as int].prekey, i as int));
                    let next = choose|n: int| self@.is_next(n);
                    if next < i {
                        assert(self@.one_time[next].stale);
                    }
                    if i < next {
                        assert(self@.one_time[i as int].stale);
                    }
                }
                return Ok(
                    BundleFragment {
                        spk: self.signed_prekey.prekey(),
                        spk_signature: self.signed_prekey.signature(),
                        opk: self.onetime_prekeys[i].prekey(),
                    },
                );
            }
            i += 1;
        }
        proof {
            if exists|n: int| self@.is_next(n) {
                let next = choose|n: int| self@.is_next(n);
                assert(self@.one_time[next].stale);
            }
        }
        Err(X3dhError::PoolExhausted)
    }

    /// Uses the one-time prekey with the public key `key`: marks it stale and
    /// hands out its secret.
    ///
    /// Fails with `KeyNotFound`, and leaves the pool as it is, exactly when
    /// the pool holds no unused one-time prekey with that public key.
    pub fn consume(&mut self, key: &X25519PublicKey) -> (consumed: Result<
        &X25519Secret,
        X3dhError,
    >)
        requires
            old(self)@.wf(),
        ensures
            final(self)@.wf(),
            old(self)@.evolves_to(final(self)@),
            match consumed {
                Ok(secret) => {
                    &&& old(self)@.available(key@)
                    &&& secret@ == old(self)@.secret_of(key@)
                    &&& final(self)@ == old(self)@.after_consume(key@)
                    &&& final(self)@.spent(key@)
                },
                Err(error) => {
                    &&& error == X3dhError::KeyNotFound
                    &&& !old(self)@.available(key@)
                    &&& final(self)@ == old(self)@
                },
            },
    {
        let ghost before = self@;
        proof {
            lemma_evolution_order(before, before, before);
        }
        let i = match self.position(key) {
            Some(i) => i,
            None => {
                return Err(X3dhError::KeyNotFound);
            },
        };
        proof {
            if before.available(key@) {
                let unused = choose|n: int| before.is_available_at(key@, n);
                lemma_one_index(before.one_time, unused, i as int);
            }
        }
        if self.onetime_prekeys[i].is_stale() {
            return Err(X3dhError::KeyNotFound);
        }
        self.onetime_prekeys[i].mark_stale();
        proof {
            assert(before.is_available_at(key@, i as int));
            assert forall|j: int| 0 <= j < before.one_time.len() implies self@.one_time[j]
                == before.after_consume(key@).one_time[j] by {
                if before.one_time[j].prekey == key@ {
                    lemma_one_index(before.one_time, j, i as int);
                }
            }
            assert(self@.one_time =~= before.after_consume(key@).one_time);
            lemma_consume_evolves(before, key@);
            lemma_evolution_keeps_wf(before, self@);
        }
        Ok(self.onetime_prekeys[i].secret())
    }

    /// The pool as text, without any secret.
    pub fn describe(&self) -> (text: String)
        ensures
            text@ == self@.described(),
    {
        let mut list = String::new();
        let mut i: usize = 0;
        assert(list@ =~= listed(self@.one_time.take(0)));
        while i < self.onetime_prekeys.len()
            invariant
                i <= self.onetime_prekeys@.len(),
                list@ == listed(self@.one_time.take(i as int)),
            decreases self.onetime_prekeys@.len() - i,
        {
            if i > 0 {
                list.append(", ");
            }
            list.append(self.onetime_prekeys[i].describe().as_str());
            proof {
                let shown = self@.one_time.take(i + 1);
                assert(shown.drop_last() =~= self@.one_time.take(i as int));
                assert(shown.last() == self@.one_time[i as int]);
                assert(Seq::<char>::empty() + shown[0].described() =~= shown[0].described());
            }
            i += 1;
        }
        assert(self@.one_time.take(i as int) =~= self@.one_time);
        let mut text = String::from_str("PrekeyPool { signed_prekey: ");
        text.append(self.signed_prekey.describe().as_str());
        text.append(", onetime_prekeys: [");
        text.append(list.as_str());
        text.append("] }");
        text
    }
}

} // verus!
