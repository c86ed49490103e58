//! Post-quantum pre-shared keys: one per peer, derived from a KEM secret, with an expiry.

use crate::hash::blake3_hash;
use crate::random::random_bytes;
use crate::util::{bytes_equal, concat3, to_array};
use crate::wipe::zeroize_array;
use vstd::prelude::*;

verus! {

/// A pre-shared key for one peer, valid until its expiry.
#[derive(Clone)]
pub struct PostQuantumPSK {
    /// The key.
    key: [u8; 32],
    /// The peer that the key belongs to.
    peer_id: [u8; 32],
    /// When the key was derived, in seconds.
    created_at: u64,
    /// When the key expires, in seconds.
    expires_at: u64,
}

/// A pre-shared key as a mathematical value.
pub struct PskModel {
    pub key: Seq<u8>,
    pub peer_id: Seq<u8>,
    pub created_at: u64,
    pub expires_at: u64,
}

impl View for PostQuantumPSK {
    type V = PskModel;

    closed spec fn view(&self) -> PskModel {
        PskModel {
            key: self.key@,
            peer_id: self.peer_id@,
            created_at: self.created_at,
            expires_at: self.expires_at,
        }
    }
}

/// Whether a key has expired at `now`.
pub open spec fn expired(p: PskModel, now: u64) -> bool {
    now >= p.expires_at
}

/// Whether a key is the current one of `peer_id` at `now`.
pub open spec fn current_for(p: PskModel, peer_id: Seq<u8>, now: u64) -> bool {
    p.peer_id == peer_id && !expired(p, now)
}

/// What the key derivation hashes: the KEM secret, the peer's identity, the salt.
pub open spec fn psk_input(kyber_shared: Seq<u8>, peer_id: Seq<u8>, salt: Seq<u8>) -> Seq<u8> {
    kyber_shared + peer_id + salt
}

impl PostQuantumPSK {
    /// Derives the key of `peer_id` as the BLAKE3 hash of the KEM secret, the peer's identity
    /// and a salt; it expires `rotation_interval_secs` after `current_timestamp_secs`.
    pub fn derive(
        kyber_shared: &[u8; 32],
        peer_id: &[u8; 32],
        salt: &[u8; 16],
        rotation_interval_secs: u64,
        current_timestamp_secs: u64,
    ) -> (psk: Self)
        requires
            current_timestamp_secs + rotation_interval_secs <= u64::MAX,
        ensures
            psk@ == (PskModel {
                key: blake3_hash(psk_input(kyber_shared@, peer_id@, salt@)),
                peer_id: peer_id@,
                created_at: current_timestamp_secs,
                expires_at: (current_timestamp_secs + rotation_interval_secs) as u64,
            }),
    {
        let input = concat3(kyber_shared.as_slice(), peer_id.as_slice(), salt.as_slice());
        let key = crate::hash::blake3(input.as_slice());
        Self {
            key,
            peer_id: *peer_id,
            created_at: current_timestamp_secs,
            expires_at: current_timestamp_secs + rotation_interval_secs,
        }
    }

    /// The key.
    pub fn key(&self) -> (k: &[u8; 32])
        ensures
            k@ == self@.key,
    {
        &self.key
    }

    /// The peer that the key belongs to.
    pub fn peer_id(&self) -> (id: &[u8; 32])
        ensures
            id@ == self@.peer_id,
    {
        &self.peer_id
    }

    /// Whether the key has expired at `current_timestamp_secs`.
    pub fn is_expired_at(&self, current_timestamp_secs: u64) -> (e: bool)
        ensures
            e == expired(self@, current_timestamp_secs),
    {
        current_timestamp_secs >= self.expires_at
    }

    /// Seconds until the key expires; 0 once it has.
    pub fn expires_in_at(&self, current_timestamp_secs: u64) -> (secs: u64)
        ensures
            secs == if expired(self@, current_timestamp_secs) {
                0
            } else {
                self@.expires_at - current_timestamp_secs
            },
    {
        if current_timestamp_secs >= self.expires_at {
            0
        } else {
            self.expires_at - current_timestamp_secs
        }
    }

    /// A copy of the key.
    fn duplicate(&self) -> (copy: Self)
        ensures
            copy@ == self@,
    {
        Self {
            key: self.key,
            peer_id: self.peer_id,
            created_at: self.created_at,
            expires_at: self.expires_at,
        }
    }
}

impl Drop for PostQuantumPSK {
    /// Wipes the key when it goes out of use.
    fn drop(&mut self)
        opens_invariants none
        no_unwind
    {
        zeroize_array(&mut self.key);
    }
}

/// The pre-shared keys at hand, at most one per peer.
pub struct PPKStore {
    ppks: Vec<PostQuantumPSK>,
}

/// No two keys of a store belong to the same peer.
pub open spec fn one_per_peer(keys: Seq<PskModel>) -> bool {
    forall|i: int, j: int|
        0 <= i < j < keys.len() ==> (#[trigger] keys[i]).peer_id != (#[trigger] keys[j]).peer_id
}

impl View for PPKStore {
    type V = Seq<PskModel>;

    closed spec fn view(&self) -> Seq<PskModel> {
        self.ppks@.map_values(|p: PostQuantumPSK| p@)
    }
}

impl PPKStore {
    /// An empty store.
    pub fn new() -> (s: Self)
        ensures
            s@ == Seq::<PskModel>::empty(),
    {
        let s = Self { ppks: Vec::new() };
        assert(s@ =~= Seq::<PskModel>::empty());
        s
    }

    /// Keeps the keys of other peers than `peer_id`, where one is given, that have not
    /// expired at `now`, where a time is given; `pred` says the same of a key's model.
    fn retain_where(
        &mut self,
        peer_id: Option<&[u8; 32]>,
        now: Option<u64>,
        Ghost(pred): Ghost<spec_fn(PskModel) -> bool>,
    )
        requires
            forall|p: PskModel|
                #[trigger] pred(p) == ((peer_id matches Some(id) ==> p.peer_id != id@) && (
                now matches Some(t) ==> !expired(p, t))),
        ensures
            final(self)@ == old(self)@.filter(pred),
    {
        let mut kept: Vec<PostQuantumPSK> = Vec::new();
        let mut i: usize = 0;
        proof {
            reveal(Seq::filter);
            assert(old(self)@.subrange(0, 0) =~= Seq::<PskModel>::empty());
            assert(kept@.map_values(|p: PostQuantumPSK| p@) =~= Seq::<PskModel>::empty());
        }
        while i < self.ppks.len()
            invariant
                i <= self.ppks@.len(),
                self.ppks@ == old(self).ppks@,
                forall|p: PskModel|
                    #[trigger] pred(p) == ((peer_id matches Some(id) ==> p.peer_id != id@) && (
                    now matches Some(t) ==> !expired(p, t))),
                kept@.map_values(|p: PostQuantumPSK| p@) == old(self)@.subrange(0, i as int).filter(
                    pred,
                ),
            decreases self.ppks@.len() - i,
        {
            let p = &self.ppks[i];
            let other_peer = match peer_id {
                Some(id) => !bytes_equal(p.peer_id.as_slice(), id.as_slice()),
                None => true,
            };
            let alive = match now {
                Some(t) => !p.is_expired_at(t),
                None => true,
            };
            proof {
                reveal(Seq::filter);
                let prefix = old(self)@.subrange(0, i + 1);
                assert(prefix.drop_last() =~= old(self)@.subrange(0, i as int));
                assert(prefix.last() == p@);
                assert(pred(p@) == (other_peer && alive));
            }
            if other_peer && alive {
                let ghost before = kept@.map_values(|p: PostQuantumPSK| p@);
                kept.push(p.duplicate());
                assert(kept@.map_values(|p: PostQuantumPSK| p@) =~= before.push(p@));
            }
            i += 1;
        }
        assert(old(self)@.subrange(0, i as int) =~= old(self)@);
        self.ppks = kept;
    }

    /// Stores the key of a peer in place of any key the peer had.
    pub fn store(&mut self, ppk: PostQuantumPSK)
        ensures
            final(self)@ == old(self)@.filter(|p: PskModel| p.peer_id != ppk@.peer_id).push(ppk@),
            one_per_peer(old(self)@) ==> one_per_peer(final(self)@),
    {
        let ghost pred = |p: PskModel| p.peer_id != ppk@.peer_id;
        self.retain_where(Some(&ppk.peer_id), None, Ghost(pred));
        let ghost kept = self@;
        self.ppks.push(ppk);
        assert(self@ =~= kept.push(ppk@));
        proof {
            if one_per_peer(old(self)@) {
                lemma_filter_keeps_one_per_peer(old(self)@, pred);
                assert forall|i: int| 0 <= i < kept.len() implies (#[trigger] kept[i]).peer_id
                    != ppk@.peer_id by {
                    old(self)@.lemma_filter_pred(pred, i);
                }
            }
        }
    }

    /// The current key of a peer: the one that belongs to `peer_id` and has not expired at
    /// `current_timestamp_secs`; the first such, should there be several.
    pub fn get(&self, peer_id: &[u8; 32], current_timestamp_secs: u64) -> (res: Option<
        &PostQuantumPSK,
    >)
        ensures
            match res {
                Some(p) => exists|i: int|
                    0 <= i < self@.len() && #[trigger] self@[i] == p@ && current_for(
                        p@,
                        peer_id@,
                        current_timestamp_secs,
                    ) && forall|j: int|
                        0 <= j < i ==> !current_for(
                            #[trigger] self@[j],
                            peer_id@,
                            current_timestamp_secs,
                        ),
                None => forall|i: int|
                    0 <= i < self@.len() ==> !current_for(
                        #[trigger] self@[i],
                        peer_id@,
                        current_timestamp_secs,
                    ),
            },
    {
        let mut i: usize = 0;
        while i < self.ppks.len()
            invariant
                i <= self.ppks@.len(),
                forall|j: int|
                    0 <= j < i ==> !current_for(
                        #[trigger] self@[j],
                        peer_id@,
                        current_timestamp_secs,
                    ),
            decreases self.ppks@.len() - i,
        {
            let p = &self.ppks[i];
            if bytes_equal(p.peer_id.as_slice(), peer_id.as_slice()) && !p.is_expired_at(
                current_timestamp_secs,
            ) {
                assert(self@[i as int] == p@);
                return Some(p);
            }
            i += 1;
        }
        None
    }

    /// Drops the keys that have expired at `current_timestamp_secs`.
    pub fn cleanup_expired(&mut self, current_timestamp_secs: u64)
        ensures
            final(self)@ == old(self)@.filter(|p: PskModel| !expired(p, current_timestamp_secs)),
            one_per_peer(old(self)@) ==> one_per_peer(final(self)@),
    {
        let ghost pred = |p: PskModel| !expired(p, current_timestamp_secs);
        self.retain_where(None, Some(current_timestamp_secs), Ghost(pred));
        proof {
            if one_per_peer(old(self)@) {
                lemma_filter_keeps_one_per_peer(old(self)@, pred);
            }
        }
    }

    /// Drops the key of a peer.
    pub fn remove_peer(&mut self, peer_id: &[u8; 32])
        ensures
            final(self)@ == old(self)@.filter(|p: PskModel| p.peer_id != peer_id@),
            one_per_peer(old(self)@) ==> one_per_peer(final(self)@),
    {
        let ghost pred = |p: PskModel| p.peer_id != peer_id@;
        self.retain_where(Some(peer_id), None, Ghost(pred));
        proof {
            if one_per_peer(old(self)@) {
                lemma_filter_keeps_one_per_peer(old(self)@, pred);
            }
        }
    }
}

/// Dropping keys from a store with one key per peer leaves one key per peer.
pub proof fn lemma_filter_keeps_one_per_peer(keys: Seq<PskModel>, pred: spec_fn(PskModel) -> bool)
    requires
        one_per_peer(keys),
    ensures
        one_per_peer(keys.filter(pred)),
    decreases keys.len(),
{
    reveal(Seq::filter);
    if keys.len() > 0 {
        let rest = keys.drop_last();
        assert forall|i: int, j: int| 0 <= i < j < rest.len() implies (#[trigger] rest[i]).peer_id != (
        #[trigger] rest[j]).peer_id by {
            assert(rest[i] == keys[i] && rest[j] == keys[j]);
        }
        lemma_filter_keeps_one_per_peer(rest, pred);
        let kept = rest.filter(pred);
        if pred(keys.last()) {
            assert forall|i: int| 0 <= i < kept.len() implies (#[trigger] kept[i]).peer_id
                != keys.last().peer_id by {
                rest.lemma_filter_contains_rev(pred, kept[i]);
                let k = choose|k: int| 0 <= k < rest.len() && rest[k] == kept[i];
                assert(keys[k] == rest[k]);
            }
        }
    }
}

/// After a key was stored for a peer, the store gives that key for the peer at any time
/// before the key's expiry, provided the store held one key per peer.
pub proof fn lemma_stored_key_is_current(keys: Seq<PskModel>, stored: PskModel, now: u64)
    requires
        one_per_peer(keys),
        !expired(stored, now),
    ensures
        ({
            let after = keys.filter(|p: PskModel| p.peer_id != stored.peer_id).push(stored);
            &&& one_per_peer(after)
            &&& current_for(after.last(), stored.peer_id, now)
            &&& forall|i: int|
                0 <= i < after.len() - 1 ==> !current_for(#[trigger] after[i], stored.peer_id, now)
        }),
{
    let pred = |p: PskModel| p.peer_id != stored.peer_id;
    let kept = keys.filter(pred);
    lemma_filter_keeps_one_per_peer(keys, pred);
    assert forall|i: int| 0 <= i < kept.len() implies (#[trigger] kept[i]).peer_id
        != stored.peer_id by {
        keys.lemma_filter_pred(pred, i);
    }
    let after = kept.push(stored);
    assert forall|i: int| 0 <= i < after.len() - 1 implies !current_for(
        #[trigger] after[i],
        stored.peer_id,
        now,
    ) by {
        assert(after[i] == kept[i]);
    }
}

/// Derives the key of a peer from a KEM secret under a fresh random salt and stores it in
/// place of any key the peer had; the key expires `rotation_interval_secs` after `now_secs`.
pub fn derive_and_store_ppk(
    store: &mut PPKStore,
    kyber_shared: &[u8; 32],
    peer_id_bytes: &[u8; 32],
    rotation_interval_secs: u64,
    now_secs: u64,
)
    requires
        now_secs + rotation_interval_secs <= u64::MAX,
    ensures
        exists|salt: Seq<u8>|
            salt.len() == 16 && final(store)@ == old(store)@.filter(
                |p: PskModel| p.peer_id != peer_id_bytes@,
            ).push(
                PskModel {
                    key: blake3_hash(#[trigger] psk_input(kyber_shared@, peer_id_bytes@, salt)),
                    peer_id: peer_id_bytes@,
                    created_at: now_secs,
                    expires_at: (now_secs + rotation_interval_secs) as u64,
                },
            ),
        one_per_peer(old(store)@) ==> one_per_peer(final(store)@),
{
    let fresh = random_bytes(16);
    let salt: [u8; 16] = to_array(fresh.as_slice());
    let ppk = PostQuantumPSK::derive(
        kyber_shared,
        peer_id_bytes,
        &salt,
        rotation_interval_secs,
        now_secs,
    );
    let ghost stored = ppk@;
    store.store(ppk);
    assert(stored.key == blake3_hash(psk_input(kyber_shared@, peer_id_bytes@, salt@)));
}

/// A copy of the current key of a peer at `now_secs`, if the store has one.
pub fn get_ppk_for_peer(store: &PPKStore, peer_id_bytes: &[u8; 32], now_secs: u64) -> (res: Option<
    PostQuantumPSK,
>)
    ensures
        match res {
            Some(p) => exists|i: int|
                0 <= i < store@.len() && #[trigger] store@[i] == p@ && current_for(
                    p@,
                    peer_id_bytes@,
                    now_secs,
                ),
            None => forall|i: int|
                0 <= i < store@.len() ==> !current_for(#[trigger] store@[i], peer_id_bytes@, now_secs),
        },
{
    match store.get(peer_id_bytes, now_secs) {
        Some(p) => Some(p.duplicate()),
        None => None,
    }
}

impl Default for PPKStore {
    fn default() -> (s: Self)
        ensures
            s@ == Seq::<PskModel>::empty(),
    {
        Self::new()
    }
}

} // verus!
