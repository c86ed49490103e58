//! Admission of inbound peers: the allow-list, and the exponential backoff that holds off an
//! endpoint after failed connections.
//!
//! Endpoints and peer identities are keyed by their text in UTF-8; time is in milliseconds on
//! a clock that the caller reads.

use crate::util::bytes_equal;
use vstd::arithmetic::power2::{lemma2_to64, lemma_pow2_strictly_increases, lemma_pow2_unfold, pow2};
use vstd::prelude::*;

verus! {

/// Base of the backoff, in milliseconds.
pub const DEFAULT_BACKOFF_BASE_MS: u64 = 500;

/// Ceiling of the backoff, in milliseconds.
pub const DEFAULT_BACKOFF_MAX_MS: u64 = 30_000;

/// Failures are counted up to this number.
pub const MAX_COUNTED_FAILURES: u32 = 16;

/// A denied endpoint is reported again after this many milliseconds.
pub const WARN_INTERVAL_MS: u64 = 60_000;

/// Most pending or established inbound connections, unless configured.
pub const DEFAULT_MAX_INBOUND: u32 = 64;

/// The backoff after `failures` failures in a row, in milliseconds: nothing after none or with
/// a base of zero; otherwise the base doubled with each failure after the first, at most 30
/// times, and capped at `max_ms` where that is not zero and at `u64::MAX`.
pub open spec fn backoff_ms(base_ms: u64, max_ms: u64, failures: u32) -> int {
    if failures == 0 || base_ms == 0 {
        0
    } else {
        let exponent = if failures - 1 < 30 {
            (failures - 1) as nat
        } else {
            30nat
        };
        let ms = base_ms * pow2(exponent);
        let capped = if max_ms > 0 && ms > max_ms {
            max_ms as int
        } else {
            ms
        };
        if capped > u64::MAX {
            u64::MAX as int
        } else {
            capped
        }
    }
}

/// Computes the backoff after `failures` failures in a row, in milliseconds.
pub fn compute_backoff_duration(base_ms: u64, max_ms: u64, failures: u32) -> (ms: u64)
    ensures
        ms == backoff_ms(base_ms, max_ms, failures),
{
    if failures == 0 || base_ms == 0 {
        return 0;
    }
    let exponent: u32 = if failures - 1 < 30 {
        failures - 1
    } else {
        30
    };
    let mut ms: u128 = base_ms as u128;
    let mut i: u32 = 0;
    proof {
        lemma2_to64();
    }
    while i < exponent
        invariant
            i <= exponent <= 30,
            ms == base_ms * pow2(i as nat),
            pow2(i as nat) <= 0x4000_0000,
            pow2(30) == 0x4000_0000,
        decreases exponent - i,
    {
        proof {
            lemma_pow2_unfold((i + 1) as nat);
            if i + 1 < 30 {
                lemma_pow2_strictly_increases((i + 1) as nat, 30);
            }
            assert(base_ms * pow2(i as nat) <= 0xffff_ffff_ffff_ffff * 0x4000_0000)
                by (nonlinear_arith)
                requires
                    base_ms <= 0xffff_ffff_ffff_ffff,
                    pow2(i as nat) <= 0x4000_0000,
            ;
            assert(base_ms * (2 * pow2(i as nat)) == 2 * (base_ms * pow2(i as nat)))
                by (nonlinear_arith);
        }
        ms = ms * 2;
        i += 1;
    }
    if max_ms > 0 && ms > max_ms as u128 {
        ms = max_ms as u128;
    }
    if ms > u64::MAX as u128 {
        u64::MAX
    } else {
        ms as u64
    }
}

/// Bounds of the backoff.
#[derive(Debug, Clone, Copy, PartialEq, Eq, Structural)]
pub struct BackoffConfig {
    pub base_ms: u64,
    pub max_ms: u64,
}

impl Default for BackoffConfig {
    fn default() -> (c: Self)
        ensures
            c.base_ms == DEFAULT_BACKOFF_BASE_MS,
            c.max_ms == DEFAULT_BACKOFF_MAX_MS,
    {
        Self { base_ms: DEFAULT_BACKOFF_BASE_MS, max_ms: DEFAULT_BACKOFF_MAX_MS }
    }
}

/// What is held against one endpoint.
#[derive(Debug, Clone, Copy, PartialEq, Eq, Structural)]
pub struct BackoffState {
    /// Failures in a row, counted up to 16.
    pub failures: u32,
    /// The time from which the endpoint is let in again.
    pub next_allowed: u64,
    /// When the endpoint was last reported as held off, if it was.
    pub last_warn: Option<u64>,
}

/// One endpoint and what is held against it.
pub struct BackoffEntry {
    key: Vec<u8>,
    state: BackoffState,
}

/// An entry as a mathematical value.
pub struct EntryModel {
    pub key: Seq<u8>,
    pub state: BackoffState,
}

impl View for BackoffEntry {
    type V = EntryModel;

    closed spec fn view(&self) -> EntryModel {
        EntryModel { key: self.key@, state: self.state }
    }
}

/// What a table holds against `key`, if anything.
pub open spec fn lookup(entries: Seq<EntryModel>, key: Seq<u8>) -> Option<BackoffState> {
    if exists|i: int| 0 <= i < entries.len() && (#[trigger] entries[i]).key == key {
        let i = choose|i: int| 0 <= i < entries.len() && (#[trigger] entries[i]).key == key;
        Some(entries[i].state)
    } else {
        None
    }
}

/// No endpoint has two entries.
pub open spec fn unique_keys(entries: Seq<EntryModel>) -> bool {
    forall|i: int, j: int|
        0 <= i < j < entries.len() ==> (#[trigger] entries[i]).key != (#[trigger] entries[j]).key
}

/// The verdict on an incoming connection.
#[derive(Debug, Clone, Copy, PartialEq, Eq, Structural)]
pub enum Admission {
    /// The endpoint is let in.
    Allowed,
    /// The endpoint is held off for `wait_ms` more milliseconds; `warn` says whether this is
    /// to be reported.
    Denied { wait_ms: u64, warn: bool },
}

/// What an incoming connection at `now` meets, given what is held against its endpoint: the
/// verdict, and what is held against the endpoint afterwards.
///
/// An endpoint with nothing against it is let in. One that is held off until later than `now`
/// is denied, and reported if it was not reported within the last minute. One whose time has
/// come is let in, and what was held against it is dropped.
pub open spec fn admission(state: Option<BackoffState>, now: u64) -> (Admission, Option<BackoffState>) {
    match state {
        None => (Admission::Allowed, None),
        Some(s) => if now < s.next_allowed {
            let warn = match s.last_warn {
                None => true,
                Some(last) => now >= last && now - last > WARN_INTERVAL_MS,
            };
            (
                Admission::Denied { wait_ms: (s.next_allowed - now) as u64, warn },
                Some(
                    BackoffState {
                        last_warn: if warn {
                            Some(now)
                        } else {
                            s.last_warn
                        },
                        ..s
                    },
                ),
            )
        } else {
            (Admission::Allowed, None)
        },
    }
}

/// What is held against an endpoint after one more failure at `now`: the failures go up by
/// one, to 16 at most, and the endpoint is held off for the backoff of that many failures.
pub open spec fn after_failure(config: BackoffConfig, state: Option<BackoffState>, now: u64) -> BackoffState {
    let before = match state {
        Some(s) => s.failures,
        None => 0u32,
    };
    let failures = if before >= MAX_COUNTED_FAILURES {
        MAX_COUNTED_FAILURES
    } else {
        (before + 1) as u32
    };
    let until = now + backoff_ms(config.base_ms, config.max_ms, failures);
    BackoffState {
        failures,
        next_allowed: if until > u64::MAX {
            u64::MAX
        } else {
            until as u64
        },
        last_warn: None,
    }
}

/// The endpoints that are held off, each with its failures.
pub struct BackoffTable {
    config: BackoffConfig,
    entries: Vec<BackoffEntry>,
}

impl View for BackoffTable {
    type V = Seq<EntryModel>;

    closed spec fn view(&self) -> Seq<EntryModel> {
        self.entries@.map_values(|e: BackoffEntry| e@)
    }
}

proof fn lemma_lookup_unique(entries: Seq<EntryModel>, i: int)
    requires
        unique_keys(entries),
        0 <= i < entries.len(),
    ensures
        lookup(entries, entries[i].key) == Some(entries[i].state),
{
    let key = entries[i].key;
    let j = choose|j: int| 0 <= j < entries.len() && (#[trigger] entries[j]).key == key;
    if j < i {
        assert(entries[j].key != entries[i].key);
    } else if i < j {
        assert(entries[i].key != entries[j].key);
    }
}

proof fn lemma_lookup_absent(entries: Seq<EntryModel>, key: Seq<u8>)
    requires
        forall|i: int| 0 <= i < entries.len() ==> (#[trigger] entries[i]).key != key,
    ensures
        lookup(entries, key) is None,
{
}

proof fn lemma_lookup_after_update(entries: Seq<EntryModel>, i: int, state: BackoffState, other: Seq<u8>)
    requires
        unique_keys(entries),
        0 <= i < entries.len(),
    ensures
        unique_keys(entries.update(i, EntryModel { key: entries[i].key, state })),
        lookup(entries.update(i, EntryModel { key: entries[i].key, state }), entries[i].key)
            == Some(state),
        other != entries[i].key ==> lookup(
            entries.update(i, EntryModel { key: entries[i].key, state }),
            other,
        ) == lookup(entries, other),
{
    let updated = entries.update(i, EntryModel { key: entries[i].key, state });
    assert forall|a: int, b: int| 0 <= a < b < updated.len() implies (#[trigger] updated[a]).key != (
    #[trigger] updated[b]).key by {
        assert(updated[a].key == entries[a].key && updated[b].key == entries[b].key);
    }
    lemma_lookup_unique(updated, i);
    if other != entries[i].key {
        if exists|k: int| 0 <= k < entries.len() && (#[trigger] entries[k]).key == other {
            let k = choose|k: int| 0 <= k < entries.len() && (#[trigger] entries[k]).key == other;
            assert(updated[k] == entries[k]);
            lemma_lookup_unique(entries, k);
            lemma_lookup_unique(updated, k);
        } else {
            assert forall|k: int| 0 <= k < updated.len() implies (#[trigger] updated[k]).key
                != other by {
                assert(updated[k].key == entries[k].key);
            }
        }
    }
}

proof fn lemma_lookup_after_push(entries: Seq<EntryModel>, entry: EntryModel, other: Seq<u8>)
    requires
        unique_keys(entries),
        lookup(entries, entry.key) is None,
    ensures
        unique_keys(entries.push(entry)),
        lookup(entries.push(entry), entry.key) == Some(entry.state),
        other != entry.key ==> lookup(entries.push(entry), other) == lookup(entries, other),
{
    let pushed = entries.push(entry);
    assert forall|a: int, b: int| 0 <= a < b < pushed.len() implies (#[trigger] pushed[a]).key != (
    #[trigger] pushed[b]).key by {
        if b == entries.len() {
            assert(pushed[a] == entries[a]);
            assert(entries[a].key != entry.key);
        } else {
            assert(pushed[a] == entries[a] && pushed[b] == entries[b]);
        }
    }
    lemma_lookup_unique(pushed, entries.len() as int);
    if other != entry.key {
        if exists|k: int| 0 <= k < entries.len() && (#[trigger] entries[k]).key == other {
            let k = choose|k: int| 0 <= k < entries.len() && (#[trigger] entries[k]).key == other;
            assert(pushed[k] == entries[k]);
            lemma_lookup_unique(entries, k);
            lemma_lookup_unique(pushed, k);
        } else {
            assert forall|k: int| 0 <= k < pushed.len() implies (#[trigger] pushed[k]).key
                != other by {
                if k < entries.len() {
                    assert(pushed[k] == entries[k]);
                }
            }
        }
    }
}

proof fn lemma_lookup_after_remove(entries: Seq<EntryModel>, i: int, other: Seq<u8>)
    requires
        unique_keys(entries),
        0 <= i < entries.len(),
    ensures
        unique_keys(entries.remove(i)),
        lookup(entries.remove(i), entries[i].key) is None,
        other != entries[i].key ==> lookup(entries.remove(i), other) == lookup(entries, other),
{
    let removed = entries.remove(i);
    assert forall|k: int| 0 <= k < removed.len() implies #[trigger] removed[k] == entries[if k < i {
        k
    } else {
        k + 1
    }] by {}
    assert forall|a: int, b: int| 0 <= a < b < removed.len() implies (#[trigger] removed[a]).key != (
    #[trigger] removed[b]).key by {
        let a2 = if a < i {
            a
        } else {
            a + 1
        };
        let b2 = if b < i {
            b
        } else {
            b + 1
        };
        assert(removed[a] == entries[a2] && removed[b] == entries[b2]);
        assert(entries[a2].key != entries[b2].key);
    }
    assert forall|k: int| 0 <= k < removed.len() implies (#[trigger] removed[k]).key
        != entries[i].key by {
        let k2 = if k < i {
            k
        } else {
            k + 1
        };
        assert(removed[k] == entries[k2]);
        if k2 < i {
            assert(entries[k2].key != entries[i].key);
        } else {
            assert(entries[i].key != entries[k2].key);
        }
    }
    if other != entries[i].key {
        if exists|k: int| 0 <= k < entries.len() && (#[trigger] entries[k]).key == other {
            let k = choose|k: int| 0 <= k < entries.len() && (#[trigger] entries[k]).key == other;
            let k2 = if k < i {
                k
            } else {
                k - 1
            };
            assert(removed[k2] == entries[k]);
            lemma_lookup_unique(entries, k);
            lemma_lookup_unique(removed, k2);
        } else {
            assert forall|k: int| 0 <= k < removed.len() implies (#[trigger] removed[k]).key
                != other by {
                let k2 = if k < i {
                    k
                } else {
                    k + 1
                };
                assert(removed[k] == entries[k2]);
            }
        }
    }
}

impl BackoffTable {
    /// The bounds that the table was made with.
    pub closed spec fn config(&self) -> BackoffConfig {
        self.config
    }

    /// No endpoint has two entries.
    pub open spec fn wf(&self) -> bool {
        unique_keys(self@)
    }

    /// An empty table with the given bounds.
    pub fn new(config: BackoffConfig) -> (t: Self)
        ensures
            t.wf(),
            t.config() == config,
            t@ == Seq::<EntryModel>::empty(),
    {
        let t = Self { config, entries: Vec::new() };
        assert(t@ =~= Seq::<EntryModel>::empty());
        t
    }

    /// The place of the entry of `key`, if it has one.
    fn find(&self, key: &[u8]) -> (res: Option<usize>)
        ensures
            match res {
                Some(i) => i < self@.len() && self@[i as int].key == key@,
                None => forall|i: int| 0 <= i < self@.len() ==> (#[trigger] self@[i]).key != key@,
            },
    {
        let mut i: usize = 0;
        while i < self.entries.len()
            invariant
                i <= self.entries@.len(),
                forall|j: int| 0 <= j < i ==> (#[trigger] self@[j]).key != key@,
            decreases self.entries@.len() - i,
        {
            if bytes_equal(self.entries[i].key.as_slice(), key) {
                return Some(i);
            }
            i += 1;
        }
        None
    }

    /// Decides on an incoming connection from `addr` at `now_ms`.
    pub fn allow_incoming(&mut self, addr: &[u8], now_ms: u64) -> (verdict: Admission)
        requires
            old(self).wf(),
        ensures
            final(self).wf(),
            final(self).config() == old(self).config(),
            verdict == admission(lookup(old(self)@, addr@), now_ms).0,
            lookup(final(self)@, addr@) == admission(lookup(old(self)@, addr@), now_ms).1,
            forall|other: Seq<u8>|
                other != addr@ ==> lookup(final(self)@, other) == lookup(old(self)@, other),
    {
        match self.find(addr) {
            None => {
                proof {
                    lemma_lookup_absent(self@, addr@);
                }
                Admission::Allowed
            },
            Some(i) => {
                proof {
                    lemma_lookup_unique(self@, i as int);
                }
                let state = self.entries[i].state;
                if now_ms < state.next_allowed {
                    let warn = match state.last_warn {
                        None => true,
                        Some(last) => now_ms >= last && now_ms - last > WARN_INTERVAL_MS,
                    };
                    let last_warn = if warn {
                        Some(now_ms)
                    } else {
                        state.last_warn
                    };
                    let updated = BackoffState { last_warn, ..state };
                    let old_entry = self.entries.remove(i);
                    self.entries.insert(i, BackoffEntry { key: old_entry.key, state: updated });
                    proof {
                        assert(self@ =~= old(self)@.update(
                            i as int,
                            EntryModel { key: old(self)@[i as int].key, state: updated },
                        ));
                        assert forall|other: Seq<u8>| other != addr@ implies lookup(self@, other)
                            == lookup(old(self)@, other) by {
                            lemma_lookup_after_update(old(self)@, i as int, updated, other);
                        }
                        lemma_lookup_after_update(old(self)@, i as int, updated, addr@);
                    }
                    Admission::Denied { wait_ms: state.next_allowed - now_ms, warn }
                } else {
                    let _ = self.entries.remove(i);
                    proof {
                        assert(self@ =~= old(self)@.remove(i as int));
                        assert forall|other: Seq<u8>| other != addr@ implies lookup(self@, other)
                            == lookup(old(self)@, other) by {
                            lemma_lookup_after_remove(old(self)@, i as int, other);
                        }
                        lemma_lookup_after_remove(old(self)@, i as int, addr@);
                    }
                    Admission::Allowed
                }
            },
        }
    }

    /// Counts one more failed connection from `addr` at `now_ms`.
    pub fn record_failure(&mut self, addr: &[u8], now_ms: u64)
        requires
            old(self).wf(),
        ensures
            final(self).wf(),
            final(self).config() == old(self).config(),
            lookup(final(self)@, addr@) == Some(
                after_failure(old(self).config(), lookup(old(self)@, addr@), now_ms),
            ),
            forall|other: Seq<u8>|
                other != addr@ ==> lookup(final(self)@, other) == lookup(old(self)@, other),
    {
        let found = self.find(addr);
        let before: u32 = match found {
            Some(i) => {
                proof {
                    lemma_lookup_unique(self@, i as int);
                }
                self.entries[i].state.failures
            },
            None => {
                proof {
                    lemma_lookup_absent(self@, addr@);
                }
                0
            },
        };
        let failures = if before >= MAX_COUNTED_FAILURES {
            MAX_COUNTED_FAILURES
        } else {
            before + 1
        };
        let backoff = compute_backoff_duration(self.config.base_ms, self.config.max_ms, failures);
        let next_allowed = if backoff > u64::MAX - now_ms {
            u64::MAX
        } else {
            now_ms + backoff
        };
        let state = BackoffState { failures, next_allowed, last_warn: None };
        match found {
            Some(i) => {
                let old_entry = self.entries.remove(i);
                self.entries.insert(i, BackoffEntry { key: old_entry.key, state });
                proof {
                    assert(self@ =~= old(self)@.update(
                        i as int,
                        EntryModel { key: old(self)@[i as int].key, state },
                    ));
                    assert forall|other: Seq<u8>| other != addr@ implies lookup(self@, other)
                        == lookup(old(self)@, other) by {
                        lemma_lookup_after_update(old(self)@, i as int, state, other);
                    }
                    lemma_lookup_after_update(old(self)@, i as int, state, addr@);
                }
            },
            None => {
                let key = vstd::slice::slice_to_vec(addr);
                self.entries.push(BackoffEntry { key, state });
                proof {
                    let entry = EntryModel { key: addr@, state };
                    assert(self@ =~= old(self)@.push(entry));
                    assert forall|other: Seq<u8>| other != addr@ implies lookup(self@, other)
                        == lookup(old(self)@, other) by {
                        lemma_lookup_after_push(old(self)@, entry, other);
                    }
                    lemma_lookup_after_push(old(self)@, entry, addr@);
                }
            },
        }
    }

    /// Drops what is held against `addr`, as a connection that was established does.
    pub fn clear_backoff_for(&mut self, addr: &[u8])
        requires
            old(self).wf(),
        ensures
            final(self).wf(),
            final(self).config() == old(self).config(),
            lookup(final(self)@, addr@) is None,
            forall|other: Seq<u8>|
                other != addr@ ==> lookup(final(self)@, other) == lookup(old(self)@, other),
    {
        match self.find(addr) {
            None => {
                proof {
                    lemma_lookup_absent(self@, addr@);
                }
            },
            Some(i) => {
                let _ = self.entries.remove(i);
                proof {
                    assert(self@ =~= old(self)@.remove(i as int));
                    assert forall|other: Seq<u8>| other != addr@ implies lookup(self@, other)
                        == lookup(old(self)@, other) by {
                        lemma_lookup_after_remove(old(self)@, i as int, other);
                    }
                    lemma_lookup_after_remove(old(self)@, i as int, addr@);
                }
            },
        }
    }
}

/// The byte strings that a list of vectors holds.
pub open spec fn views(list: Seq<Vec<u8>>) -> Seq<Seq<u8>> {
    list.map_values(|p: Vec<u8>| p@)
}

/// The peers that may connect; an empty list lets every peer in.
pub struct AllowList {
    peers: Vec<Vec<u8>>,
}

impl AllowList {
    /// The listed peers.
    pub closed spec fn peers(&self) -> Seq<Seq<u8>> {
        views(self.peers@)
    }

    /// Whether `peer` may connect: every peer where the list is empty, the listed ones
    /// otherwise.
    pub open spec fn allows(&self, peer: Seq<u8>) -> bool {
        self.peers().len() == 0 || self.peers().contains(peer)
    }

    /// An allow-list that lets every peer in.
    pub fn new() -> (l: Self)
        ensures
            l.peers() == Seq::<Seq<u8>>::empty(),
    {
        let l = Self { peers: Vec::new() };
        assert(l.peers() =~= Seq::<Seq<u8>>::empty());
        l
    }

    /// Sets the list of peers that may connect, in place of the list that was set.
    pub fn set_allowed_peers(&mut self, peers: Vec<Vec<u8>>)
        ensures
            final(self).peers() == views(peers@),
    {
        self.peers = peers;
    }

    /// Whether `peer` may connect.
    pub fn peer_is_allowed(&self, peer: &[u8]) -> (ok: bool)
        ensures
            ok == self.allows(peer@),
    {
        if self.peers.len() == 0 {
            return true;
        }
        let mut i: usize = 0;
        while i < self.peers.len()
            invariant
                i <= self.peers@.len(),
                forall|j: int| 0 <= j < i ==> (#[trigger] self.peers()[j]) != peer@,
            decreases self.peers@.len() - i,
        {
            if bytes_equal(self.peers[i].as_slice(), peer) {
                assert(self.peers()[i as int] == peer@);
                return true;
            }
            i += 1;
        }
        false
    }
}

} // verus!
