//! `RustCache`: the storage core.
//!
//! Keys are strings, values opaque bytes with an optional expiry deadline
//! (epoch milliseconds). Expiration is lazy: an expired entry stays in the map
//! until a read (`get`, `exists`) or `cleanup_expired` collects it. With a
//! size limit, a write of a new key into a full cache is either rejected or
//! makes room by evicting the least recently used entry.
//!
//! The model of a cache is [`RustCache::entries`], a map from key text to
//! [`EntryView`], together with its counters, size limit and policy.

use vstd::prelude::*;
use dashmap::DashMap;
use crate::entry::{counter_add, CacheEntry, EntryView};
use crate::stats::{CacheStats, StatsSnapshot};
use crate::store::{
    no_entries, snapshot_keys, store_clear, store_contains_key, store_contents, store_insert, store_deadline, store_touch, store_value_and_deadline,
    store_iter, store_len, store_new, store_remove, store_remove_if_expired,
};

verus! {

/// What to do when the size limit is reached and a **new** key arrives.
#[derive(Debug, Clone, Copy, PartialEq, Eq, Default)]
pub enum EvictionPolicy {
    /// Reject the write (`set` returns `false`). The default.
    #[default]
    Reject,
    /// Remove the least recently used entry to make room.
    Lru,
}

/// What a read of `key` at `now` finds in `m`: the value when the key is
/// present and its entry has not expired, else nothing.
pub open spec fn lookup(m: Map<Seq<char>, EntryView>, key: Seq<char>, now: u64) -> Option<Seq<u8>> {
    if m.contains_key(key) && !m[key].is_expired(now) {
        Some(m[key].value)
    } else {
        None
    }
}

/// `k` is a least recently used key of `m`: present, and no entry of `m`
/// was accessed less recently.
pub open spec fn is_lru_victim(m: Map<Seq<char>, EntryView>, k: Seq<char>) -> bool {
    &&& m.contains_key(k)
    &&& forall|k2: Seq<char>| #[trigger]
        m.contains_key(k2) ==> m[k].last_accessed_at <= m[k2].last_accessed_at
}

/// The entries of `m` that have not expired at `now`.
pub open spec fn live_entries(m: Map<Seq<char>, EntryView>, now: u64) -> Map<Seq<char>, EntryView> {
    m.restrict(m.dom().filter(|k: Seq<char>| !m[k].is_expired(now)))
}

/// One change that an operation of the cache makes to its entries.
pub enum EntriesStep {
    /// `get(key, now)`.
    Read { key: Seq<char>, now: u64 },
    /// `key_exists(key, now)`.
    Probe { key: Seq<char>, now: u64 },
    /// `delete(key)`.
    Remove { key: Seq<char> },
    /// `cleanup_expired(now)`.
    Collect { now: u64 },
    /// `clear()`.
    Clear,
    /// The write of `set`.
    Write { key: Seq<char>, entry: EntryView },
    /// The eviction that `set` may make before its write.
    Evict { key: Seq<char> },
}

/// The entries after `step`, from the entries `m`.
pub open spec fn apply_step(m: Map<Seq<char>, EntryView>, step: EntriesStep) -> Map<Seq<char>, EntryView> {
    match step {
        EntriesStep::Read { key, now } => if !m.contains_key(key) {
            m
        } else if m[key].is_expired(now) {
            m.remove(key)
        } else {
            m.insert(key, m[key].touched(now))
        },
        EntriesStep::Probe { key, now } => if m.contains_key(key) && m[key].is_expired(now) {
            m.remove(key)
        } else {
            m
        },
        EntriesStep::Remove { key } => m.remove(key),
        EntriesStep::Collect { now } => live_entries(m, now),
        EntriesStep::Clear => Map::empty(),
        EntriesStep::Write { key, entry } => m.insert(key, entry),
        EntriesStep::Evict { key } => m.remove(key),
    }
}

/// The entries after the steps, taken in order, from the entries `m`.
pub open spec fn apply_steps(m: Map<Seq<char>, EntryView>, steps: Seq<EntriesStep>) -> Map<
    Seq<char>,
    EntryView,
>
    decreases steps.len(),
{
    if steps.len() == 0 {
        m
    } else {
        apply_steps(apply_step(m, steps[0]), steps.drop_first())
    }
}

/// A deadline `expires_at` has been reached at `now`.
pub open spec fn deadline_reached(expires_at: Option<u64>, now: u64) -> bool {
    match expires_at {
        Some(exp) => now >= exp,
        None => false,
    }
}

/// `step` leaves alone the entry of `key` whose deadline is `expires_at`: it
/// does not delete, overwrite or evict that key, does not clear the cache,
/// and reads or collects only at times before the deadline.
pub open spec fn spares(step: EntriesStep, key: Seq<char>, expires_at: Option<u64>) -> bool {
    match step {
        EntriesStep::Read { key: k, now } => k != key || !deadline_reached(expires_at, now),
        EntriesStep::Probe { key: k, now } => k != key || !deadline_reached(expires_at, now),
        EntriesStep::Remove { key: k } => k != key,
        EntriesStep::Collect { now } => !deadline_reached(expires_at, now),
        EntriesStep::Clear => false,
        EntriesStep::Write { key: k, .. } => k != key,
        EntriesStep::Evict { key: k } => k != key,
    }
}

/// `m` holds under `key` the value `value` with the deadline `expires_at`.
pub open spec fn holds_value(
    m: Map<Seq<char>, EntryView>,
    key: Seq<char>,
    value: Seq<u8>,
    expires_at: Option<u64>,
) -> bool {
    &&& m.contains_key(key)
    &&& m[key].value == value
    &&& m[key].expires_at == expires_at
}

/// The concurrent storage core of the cache.
#[derive(Debug)]
pub struct RustCache {
    store: DashMap<String, CacheEntry>,
    stats: CacheStats,
    /// Optional limit on the number of keys.
    max_size: Option<usize>,
    /// What happens when the cache is full and a new key arrives.
    eviction_policy: EvictionPolicy,
}

impl RustCache {
    /// The stored entries, by key text.
    pub closed spec fn entries(&self) -> Map<Seq<char>, EntryView> {
        store_contents(self.store)
    }

    /// The usage counters.
    pub closed spec fn counters(&self) -> StatsSnapshot {
        self.stats.counters()
    }

    /// The configured size limit.
    pub closed spec fn size_limit(&self) -> Option<usize> {
        self.max_size
    }

    /// The configured eviction policy.
    pub closed spec fn policy(&self) -> EvictionPolicy {
        self.eviction_policy
    }

    /// Well-formedness: the store holds finitely many keys.
    pub open spec fn wf(&self) -> bool {
        self.entries().dom().finite()
    }

    /// The size limit holds: no more keys than `max_size`, when there is one.
    pub open spec fn within_capacity(&self) -> bool {
        match self.size_limit() {
            Some(max) => self.entries().len() <= max,
            None => true,
        }
    }

    /// A write of `key` finds the cache full: a limit is set, reached, and
    /// the key is new.
    pub open spec fn is_full_for(&self, key: Seq<char>) -> bool {
        match self.size_limit() {
            Some(max) => self.entries().len() >= max && !self.entries().contains_key(key),
            None => false,
        }
    }

    /// `a` and `b` have the same size limit and eviction policy.
    pub open spec fn same_config(a: &RustCache, b: &RustCache) -> bool {
        &&& a.size_limit() == b.size_limit()
        &&& a.policy() == b.policy()
    }

    /// An empty cache. `max_size = None` means no limit on the number of keys.
    pub fn new(max_size: Option<usize>, eviction_policy: EvictionPolicy) -> (c: Self)
        ensures
            c.wf(),
            c.entries() == no_entries(),
            c.counters() == StatsSnapshot::zero(),
            c.size_limit() == max_size,
            c.policy() == eviction_policy,
    {
        RustCache { store: store_new(), stats: CacheStats::new(), max_size, eviction_policy }
    }

    /// The configured eviction policy.
    pub fn eviction_policy(&self) -> (p: EvictionPolicy)
        ensures
            p == self.policy(),
    {
        self.eviction_policy
    }

    /// Removes an entry with the smallest `last_accessed_at` (the least
    /// recently used one), counting it as evicted. Does nothing on an empty
    /// cache. Scans the map once: O(n), only on the rare full-cache path.
    fn evict_lru(&mut self)
        requires
            old(self).wf(),
        ensures
            final(self).wf(),
            Self::same_config(&*old(self), &*final(self)),
            old(self).entries().len() == 0 ==> final(self).entries() == old(self).entries()
                && final(self).counters() == old(self).counters(),
            old(self).entries().len() > 0 ==> exists|k: Seq<char>|
                #[trigger] is_lru_victim(old(self).entries(), k)
                && final(self).entries() == old(self).entries().remove(k),
            old(self).entries().len() > 0 ==> final(self).counters() == (StatsSnapshot {
                evicted: counter_add(old(self).counters().evicted, 1),
                ..old(self).counters()
            }),
    {
        let snapshot = store_iter(&self.store);
        let ghost m = self.entries();
        let ghost keys = snapshot_keys(snapshot@);
        proof {
            keys.unique_seq_to_set();
        }
        if snapshot.len() == 0 {
            assert(m.dom() =~= Set::<Seq<char>>::empty());
            return;
        }
        let mut best: usize = 0;
        let mut i: usize = 1;
        while i < snapshot.len()
            invariant
                0 <= best < i <= snapshot@.len(),
                forall|j: int| 0 <= j < i ==> snapshot@[best as int].2 <= #[trigger] snapshot@[j].2,
            decreases snapshot@.len() - i,
        {
            if snapshot[i].2 < snapshot[best].2 {
                best = i;
            }
            i = i + 1;
        }
        let key = snapshot[best].0.clone();
        proof {
            assert(keys[best as int] == key@);
            assert(keys.to_set().contains(key@));
            assert forall|k2: Seq<char>| #[trigger] m.contains_key(k2) implies m[key@].last_accessed_at
                <= m[k2].last_accessed_at by {
                assert(keys.to_set().contains(k2));
                let j = choose|j: int| 0 <= j < keys.len() && keys[j] == k2;
                assert(snapshot@[j].0@ == k2);
                assert(snapshot@[best as int].2 <= snapshot@[j].2);
            }
            assert(is_lru_victim(m, key@));
        }
        if store_remove(&mut self.store, key.as_str()).is_some() {
            self.stats.record_evicted();
        }
    }

    /// Stores `value` (already serialized) under `key` with the deadline
    /// `expires_at`, replacing any previous entry; `now` becomes its creation
    /// and last-access time.
    ///
    /// Overwriting a present key is always allowed. For a **new** key while
    /// the cache is full (`max_size` reached): `Reject` returns `false`
    /// without writing; `Lru` evicts the least recently used entry and goes
    /// on, or, when there is nothing to evict (a limit of 0), returns `false`
    /// without writing. So the number of keys never exceeds `max_size`.
    /// Returns `true` when the entry was written.
    pub fn set(&mut self, key: String, value: Vec<u8>, expires_at: Option<u64>, now: u64) -> (r: bool)
        requires
            old(self).wf(),
        ensures
            final(self).wf(),
            Self::same_config(&*old(self), &*final(self)),
            r == !(old(self).is_full_for(key@) && (old(self).policy() == EvictionPolicy::Reject
                || old(self).entries().len() == 0)),
            !r ==> final(self).entries() == old(self).entries() && final(self).counters()
                == old(self).counters(),
            r && !old(self).is_full_for(key@) ==> final(self).entries() == old(self).entries().insert(
                key@,
                EntryView::fresh(value@, expires_at, now),
            ) && final(self).counters() == (StatsSnapshot {
                sets: counter_add(old(self).counters().sets, 1),
                ..old(self).counters()
            }),
            r && old(self).is_full_for(key@) ==> (exists|k: Seq<char>|
                #[trigger] is_lru_victim(old(self).entries(), k) && final(self).entries()
                    == old(self).entries().remove(k).insert(
                    key@,
                    EntryView::fresh(value@, expires_at, now),
                )) && final(self).counters() == (StatsSnapshot {
                sets: counter_add(old(self).counters().sets, 1),
                evicted: counter_add(old(self).counters().evicted, 1),
                ..old(self).counters()
            }),
            ({
                let write = EntriesStep::Write { key: key@, entry: EntryView::fresh(value@, expires_at, now) };
                r ==> (final(self).entries() == apply_step(old(self).entries(), write) || exists|k: Seq<char>|
                    #[trigger] is_lru_victim(old(self).entries(), k) && final(self).entries() == apply_step(
                        apply_step(old(self).entries(), EntriesStep::Evict { key: k }),
                        write,
                    ))
            }),
            old(self).within_capacity() ==> final(self).within_capacity(),
    {
        let ghost old_entries = self.entries();
        if let Some(max) = self.max_size {
            let len = store_len(&self.store);
            if len >= max && !store_contains_key(&self.store, key.as_str()) {
                match self.eviction_policy {
                    EvictionPolicy::Reject => return false,
                    EvictionPolicy::Lru => {
                        if len == 0 {
                            return false;
                        }
                        self.evict_lru();
                    },
                }
            }
        }
        let ghost before_insert = self.entries();
        store_insert(&mut self.store, key, CacheEntry::new(value, expires_at, now));
        self.stats.record_set();
        proof {
            if old(self).is_full_for(key@) {
                let k = choose|k: Seq<char>|
                    #[trigger] is_lru_victim(old_entries, k) && before_insert == old_entries.remove(k);
                assert(is_lru_victim(old_entries, k));
                assert(self.entries() == old_entries.remove(k).insert(
                    key@,
                    EntryView::fresh(value@, expires_at, now),
                ));
            }
        }
        true
    }

    /// Reads the bytes of `key` at `now`, with **lazy expiration**.
    ///
    /// - Absent key: `None`, counted as a miss.
    /// - Entry expired at `now`: removed, counted as a miss and as expired, `None`.
    /// - Otherwise: a copy of the bytes, counted as a hit; the entry records
    ///   the access (`last_accessed_at = now`, one more read).
    pub fn get(&mut self, key: &str, now: u64) -> (r: Option<Vec<u8>>)
        requires
            old(self).wf(),
        ensures
            r is Some ==> final(self).entries().contains_key(key@) && final(self).entries()[key@].last_accessed_at
                == now,
            final(self).entries() == apply_step(old(self).entries(), (EntriesStep::Read { key: key@, now })),
            final(self).wf(),
            Self::same_config(&*old(self), &*final(self)),
            r is Some <==> lookup(old(self).entries(), key@, now) is Some,
            r matches Some(v) ==> lookup(old(self).entries(), key@, now) == Some(v@),
            ({
                let before = old(self).entries();
                let after = final(self).entries();
                let c = old(self).counters();
                if !before.contains_key(key@) {
                    &&& after == before
                    &&& final(self).counters() == (StatsSnapshot { misses: counter_add(c.misses, 1), ..c })
                } else if before[key@].is_expired(now) {
                    &&& after == before.remove(key@)
                    &&& final(self).counters() == (StatsSnapshot {
                        misses: counter_add(c.misses, 1),
                        expired: counter_add(c.expired, 1),
                        ..c
                    })
                } else {
                    &&& after == before.insert(key@, before[key@].touched(now))
                    &&& final(self).counters() == (StatsSnapshot { hits: counter_add(c.hits, 1), ..c })
                }
            }),
            old(self).within_capacity() ==> final(self).within_capacity(),
    {
        match store_value_and_deadline(&self.store, key) {
            None => {
                self.stats.record_miss();
                None
            },
            Some((value, expires_at)) => {
                let expired = match expires_at {
                    Some(exp) => now >= exp,
                    None => false,
                };
                if expired {
                    store_remove(&mut self.store, key);
                    self.stats.record_expired(1);
                    self.stats.record_miss();
                    None
                } else {
                    store_touch(&mut self.store, key, now);
                    self.stats.record_hit();
                    Some(value)
                }
            },
        }
    }

    /// `true` when `key` is present and **not** expired at `now`; an expired
    /// entry is collected (removed and counted as expired). Unlike `get`, it
    /// leaves the hit and miss counters and the entry's recency alone.
    pub fn key_exists(&mut self, key: &str, now: u64) -> (r: bool)
        requires
            old(self).wf(),
        ensures
            final(self).entries() == apply_step(old(self).entries(), (EntriesStep::Probe { key: key@, now })),
            final(self).wf(),
            Self::same_config(&*old(self), &*final(self)),
            r == (lookup(old(self).entries(), key@, now) is Some),
            ({
                let before = old(self).entries();
                let c = old(self).counters();
                if before.contains_key(key@) && before[key@].is_expired(now) {
                    &&& final(self).entries() == before.remove(key@)
                    &&& final(self).counters() == (StatsSnapshot { expired: counter_add(c.expired, 1), ..c })
                } else {
                    &&& final(self).entries() == before
                    &&& final(self).counters() == c
                }
            }),
            old(self).within_capacity() ==> final(self).within_capacity(),
    {
        let expired = match store_deadline(&self.store, key) {
            None => return false,
            Some(Some(exp)) => now >= exp,
            Some(None) => false,
        };
        if expired {
            store_remove(&mut self.store, key);
            self.stats.record_expired(1);
            false
        } else {
            true
        }
    }

    /// Removes `key`. `true` when an entry was there (live or expired but not
    /// yet collected), counted as a delete; `false` otherwise.
    pub fn delete(&mut self, key: &str) -> (r: bool)
        requires
            old(self).wf(),
        ensures
            final(self).wf(),
            Self::same_config(&*old(self), &*final(self)),
            r == old(self).entries().contains_key(key@),
            final(self).entries() == old(self).entries().remove(key@),
            r ==> final(self).counters() == (StatsSnapshot {
                deletes: counter_add(old(self).counters().deletes, 1),
                ..old(self).counters()
            }),
            !r ==> final(self).counters() == old(self).counters(),
            old(self).within_capacity() ==> final(self).within_capacity(),
    {
        if store_remove(&mut self.store, key).is_some() {
            self.stats.record_delete();
            true
        } else {
            false
        }
    }

    /// Every key currently in the map, each once, in no particular order.
    /// May include expired keys not yet collected (as `len` counts them).
    pub fn keys(&self) -> (r: Vec<String>)
        requires
            self.wf(),
        ensures
            r@.map_values(|s: String| s@).no_duplicates(),
            r@.map_values(|s: String| s@).to_set() == self.entries().dom(),
            r@.len() == self.entries().len(),
    {
        let snapshot = store_iter(&self.store);
        let ghost keys = snapshot_keys(snapshot@);
        let mut out: Vec<String> = Vec::new();
        let mut i: usize = 0;
        while i < snapshot.len()
            invariant
                i <= snapshot@.len(),
                keys == snapshot_keys(snapshot@),
                out@.len() == i,
                forall|j: int| 0 <= j < i ==> #[trigger] out@[j]@ == snapshot@[j].0@,
            decreases snapshot@.len() - i,
        {
            out.push(snapshot[i].0.clone());
            i = i + 1;
        }
        proof {
            assert(out@.map_values(|s: String| s@) =~= keys);
            keys.unique_seq_to_set();
        }
        out
    }

    /// Removes every entry expired at `now`; returns how many were removed,
    /// counted as expired.
    ///
    /// Two phases, so that nothing is removed while the map is walked:
    /// (1) collect the keys whose entries have expired; (2) remove each with
    /// `remove_if`, which checks the expiry again.
    pub fn cleanup_expired(&mut self, now: u64) -> (r: usize)
        requires
            old(self).wf(),
        ensures
            final(self).wf(),
            Self::same_config(&*old(self), &*final(self)),
            final(self).entries() == live_entries(old(self).entries(), now),
            r == old(self).entries().len() - final(self).entries().len(),
            r == old(self).entries().dom().filter(|k: Seq<char>| old(self).entries()[k].is_expired(now)).len(),
            final(self).counters() == (StatsSnapshot {
                expired: counter_add(old(self).counters().expired, r as u64),
                ..old(self).counters()
            }),
            old(self).within_capacity() ==> final(self).within_capacity(),
    {
        let ghost m = self.entries();
        let ghost expired_set = m.dom().filter(|k: Seq<char>| m[k].is_expired(now));
        let snapshot = store_iter(&self.store);
        let ghost keys = snapshot_keys(snapshot@);
        proof {
            keys.unique_seq_to_set();
        }
        // Phase 1: the keys whose entries have expired.
        let mut expired: Vec<String> = Vec::new();
        let ghost mut picked: Seq<int> = Seq::empty();
        let mut i: usize = 0;
        while i < snapshot.len()
            invariant
                i <= snapshot@.len(),
                keys == snapshot_keys(snapshot@),
                keys.no_duplicates(),
                keys.to_set() == m.dom(),
                forall|j: int|
                    0 <= j < snapshot@.len() ==> {
                        let e = m[#[trigger] snapshot@[j].0@];
                        snapshot@[j].1 == e.expires_at && snapshot@[j].2 == e.last_accessed_at
                    },
                expired@.len() == picked.len(),
                forall|a: int| 0 <= a < picked.len() ==> 0 <= #[trigger] picked[a] < i,
                forall|a: int, b: int| 0 <= a < b < picked.len() ==> picked[a] < picked[b],
                forall|a: int|
                    0 <= a < picked.len() ==> #[trigger] expired@[a]@ == keys[picked[a]],
                forall|a: int| 0 <= a < picked.len() ==> m[keys[#[trigger] picked[a]]].is_expired(now),
                forall|j: int|
                    0 <= j < i && m[#[trigger] keys[j]].is_expired(now) ==> exists|a: int|
                        0 <= a < picked.len() && picked[a] == j,
            decreases snapshot@.len() - i,
        {
            let is_expired = match snapshot[i].1 {
                Some(exp) => now >= exp,
                None => false,
            };
            let ghost old_picked = picked;
            proof {
                assert(keys[i as int] == snapshot@[i as int].0@);
            }
            if is_expired {
                expired.push(snapshot[i].0.clone());
                proof {
                    picked = picked.push(i as int);
                }
            }
            proof {
                assert forall|jj: int|
                    0 <= jj < i + 1 && m[#[trigger] keys[jj]].is_expired(now) implies exists|a: int|
                    0 <= a < picked.len() && picked[a] == jj by {
                    if jj < i {
                        let a = choose|a: int| 0 <= a < old_picked.len() && old_picked[a] == jj;
                        assert(picked[a] == jj);
                    } else {
                        assert(picked[picked.len() - 1] == jj);
                    }
                }
            }
            i = i + 1;
        }
        // The collected keys are distinct, and they are exactly the expired ones.
        let ghost ekeys = expired@.map_values(|s: String| s@);
        proof {
            assert forall|a: int, b: int| 0 <= a < b < ekeys.len() implies ekeys[a] != ekeys[b] by {
                assert(picked[a] < picked[b]);
                assert(keys[picked[a]] != keys[picked[b]]);
            }
            assert forall|k: Seq<char>| ekeys.contains(k) <==> expired_set.contains(k) by {
                if ekeys.contains(k) {
                    let a = choose|a: int| 0 <= a < ekeys.len() && ekeys[a] == k;
                    assert(expired@[a]@ == keys[picked[a]]);
                    assert(keys.to_set().contains(keys[picked[a]]));
                    assert(m[keys[picked[a]]].is_expired(now));
                }
                if expired_set.contains(k) {
                    assert(keys.to_set().contains(k));
                    let j = choose|j: int| 0 <= j < keys.len() && keys[j] == k;
                    assert(m[keys[j]].is_expired(now));
                    let a = choose|a: int| 0 <= a < picked.len() && picked[a] == j;
                    assert(ekeys[a] == k);
                }
            }
            assert(ekeys.to_set() =~= expired_set);
            ekeys.unique_seq_to_set();
        }
        // Phase 2: remove them, checking the expiry again.
        let mut removed: u64 = 0;
        let mut j: usize = 0;
        while j < expired.len()
            invariant
                j <= expired@.len(),
                ekeys == expired@.map_values(|s: String| s@),
                ekeys.no_duplicates(),
                ekeys.to_set() == expired_set,
                expired_set == m.dom().filter(|k: Seq<char>| m[k].is_expired(now)),
                m.dom().finite(),
                removed == j,
                self.wf(),
                Self::same_config(&*old(self), &*self),
                self.counters() == old(self).counters(),
                self.entries().len() + j == m.len(),
                forall|k: Seq<char>|
                    #[trigger] self.entries().contains_key(k) <==> (m.contains_key(k)
                        && !ekeys.take(j as int).contains(k)),
                forall|k: Seq<char>| #[trigger] self.entries().contains_key(k) ==> self.entries()[k] == m[k],
            decreases expired@.len() - j,
        {
            let ghost before = self.entries();
            let ghost k = ekeys[j as int];
            proof {
                assert(expired_set.contains(k));
                assert(!ekeys.take(j as int).contains(k));
                assert(before.contains_key(k));
            }
            let gone = store_remove_if_expired(&mut self.store, expired[j].as_str(), now);
            proof {
                assert(expired@[j as int]@ == k);
                assert(gone is Some);
                assert(ekeys.take(j + 1) =~= ekeys.take(j as int).push(k));
                assert(self.entries().len() == before.len() - 1);
                let t0 = ekeys.take(j as int);
                let t1 = ekeys.take(j + 1);
                assert forall|k2: Seq<char>| t1.contains(k2) <==> (t0.contains(k2) || k2 == k) by {
                    if t0.contains(k2) {
                        let a = choose|a: int| 0 <= a < t0.len() && t0[a] == k2;
                        assert(t1[a] == k2);
                    }
                    if k2 == k {
                        assert(t1[j as int] == k2);
                    }
                    if t1.contains(k2) && k2 != k {
                        let a = choose|a: int| 0 <= a < t1.len() && t1[a] == k2;
                        assert(t0[a] == k2);
                    }
                }
                assert forall|k2: Seq<char>|
                    #[trigger] self.entries().contains_key(k2) <==> (m.contains_key(k2) && !t1.contains(k2)) by {
                    assert(t1.contains(k2) <==> (t0.contains(k2) || k2 == k));
                }
            }
            if gone.is_some() {
                removed = removed + 1;
            }
            j = j + 1;
        }
        self.stats.record_expired(removed);
        proof {
            assert(ekeys.take(expired@.len() as int) =~= ekeys);
            assert(self.entries() =~= live_entries(m, now));
            assert(m.dom() =~= self.entries().dom() + expired_set);
        }
        removed as usize
    }

    /// A copy of the usage counters.
    pub fn stats(&self) -> (s: StatsSnapshot)
        ensures
            s == self.counters(),
    {
        self.stats.snapshot()
    }

    /// The number of entries in the map; it may count expired entries that
    /// have not been collected yet (expiration is lazy).
    pub fn len(&self) -> (n: usize)
        requires
            self.wf(),
        ensures
            n == self.entries().len(),
    {
        store_len(&self.store)
    }

    /// Removes every entry. The counters are kept: they are the usage history.
    pub fn clear(&mut self)
        ensures
            final(self).entries() == apply_step(old(self).entries(), EntriesStep::Clear),
            final(self).wf(),
            Self::same_config(&*old(self), &*final(self)),
            final(self).entries() == no_entries(),
            final(self).counters() == old(self).counters(),
            old(self).within_capacity() ==> final(self).within_capacity(),
    {
        store_clear(&mut self.store);
    }
}

/// A read after a write finds the written value, as long as its deadline
/// (if any) has not been reached: whatever else the cache held, and whatever
/// entry the write may have evicted.
pub proof fn lemma_read_after_write(
    m: Map<Seq<char>, EntryView>,
    key: Seq<char>,
    value: Seq<u8>,
    expires_at: Option<u64>,
    now: u64,
    t: u64,
)
    requires
        expires_at matches Some(exp) ==> t < exp,
    ensures
        lookup(m.insert(key, EntryView::fresh(value, expires_at, now)), key, t) == Some(value),
{
}

/// A value written with a deadline is not found from the deadline on.
pub proof fn lemma_no_read_after_deadline(
    m: Map<Seq<char>, EntryView>,
    key: Seq<char>,
    value: Seq<u8>,
    exp: u64,
    now: u64,
    t: u64,
)
    requires
        exp <= t,
    ensures
        lookup(m.insert(key, EntryView::fresh(value, Some(exp), now)), key, t) is None,
{
}

/// Expiry is permanent: an entry expired at `t1` is expired at every later `t2`.
pub proof fn lemma_expiry_is_permanent(e: EntryView, t1: u64, t2: u64)
    requires
        e.is_expired(t1),
        t1 <= t2,
    ensures
        e.is_expired(t2),
{
}

/// Writing one key does not change what a read of another key finds.
pub proof fn lemma_write_keeps_other_keys(
    m: Map<Seq<char>, EntryView>,
    key: Seq<char>,
    e: EntryView,
    other: Seq<char>,
    t: u64,
)
    requires
        other != key,
    ensures
        lookup(m.insert(key, e), other, t) == lookup(m, other, t),
{
}

/// After a key is deleted, a read of it finds nothing, and a second delete
/// finds nothing to remove.
pub proof fn lemma_read_after_delete(m: Map<Seq<char>, EntryView>, key: Seq<char>, t: u64)
    ensures
        lookup(m.remove(key), key, t) is None,
        !m.remove(key).contains_key(key),
{
}

/// A successful read changes only the entry's recency and read count: every
/// later read, of any key at any time, finds what it would have found.
pub proof fn lemma_read_keeps_values(
    m: Map<Seq<char>, EntryView>,
    key: Seq<char>,
    now: u64,
    other: Seq<char>,
    t: u64,
)
    requires
        m.contains_key(key),
    ensures
        lookup(m.insert(key, m[key].touched(now)), other, t) == lookup(m, other, t),
{
}

/// Collecting the entries expired at `now` leaves no expired entry behind and
/// changes nothing that a read at `now` finds.
pub proof fn lemma_cleanup_keeps_reads(m: Map<Seq<char>, EntryView>, now: u64, key: Seq<char>)
    ensures
        live_entries(m, now).contains_key(key) ==> !live_entries(m, now)[key].is_expired(now),
        lookup(live_entries(m, now), key, now) == lookup(m, key, now),
{
}

/// A step that spares a key keeps its value and deadline.
proof fn lemma_spared_step_keeps_value(
    m: Map<Seq<char>, EntryView>,
    step: EntriesStep,
    key: Seq<char>,
    value: Seq<u8>,
    expires_at: Option<u64>,
)
    requires
        holds_value(m, key, value, expires_at),
        spares(step, key, expires_at),
    ensures
        holds_value(apply_step(m, step), key, value, expires_at),
{
    if let EntriesStep::Collect { now } = step {
        assert(m.dom().filter(|k: Seq<char>| !m[k].is_expired(now)).contains(key));
    }
}

/// A value stays in the cache, with its deadline, through any sequence of
/// operations that spares its key: no delete, overwrite or eviction of the
/// key, no clear, and reads, probes and collections of it only before its
/// deadline.
pub proof fn lemma_value_survives(
    m: Map<Seq<char>, EntryView>,
    key: Seq<char>,
    value: Seq<u8>,
    expires_at: Option<u64>,
    steps: Seq<EntriesStep>,
)
    requires
        holds_value(m, key, value, expires_at),
        forall|i: int| 0 <= i < steps.len() ==> spares(#[trigger] steps[i], key, expires_at),
    ensures
        holds_value(apply_steps(m, steps), key, value, expires_at),
    decreases steps.len(),
{
    if steps.len() > 0 {
        lemma_spared_step_keeps_value(m, steps[0], key, value, expires_at);
        let rest = steps.drop_first();
        assert forall|i: int| 0 <= i < rest.len() implies spares(#[trigger] rest[i], key, expires_at) by {
            assert(rest[i] == steps[i + 1]);
        }
        lemma_value_survives(apply_step(m, steps[0]), key, value, expires_at, rest);
    }
}

/// Read after write over a sequence of calls: after `set(key, value,
/// expires_at, t)` wrote its entry, and then any operations that spare the
/// key, a read at a time before the deadline finds `value`.
pub proof fn lemma_read_after_writes(
    m: Map<Seq<char>, EntryView>,
    key: Seq<char>,
    value: Seq<u8>,
    expires_at: Option<u64>,
    t: u64,
    steps: Seq<EntriesStep>,
    now: u64,
)
    requires
        forall|i: int| 0 <= i < steps.len() ==> spares(#[trigger] steps[i], key, expires_at),
        !deadline_reached(expires_at, now),
    ensures
        lookup(
            apply_steps(
                apply_step(m, (EntriesStep::Write { key, entry: EntryView::fresh(value, expires_at, t) })),
                steps,
            ),
            key,
            now,
        ) == Some(value),
{
    let m1 = apply_step(m, EntriesStep::Write { key, entry: EntryView::fresh(value, expires_at, t) });
    lemma_value_survives(m1, key, value, expires_at, steps);
}

/// A collection at `now` removes every entry whose deadline `now` has reached.
pub proof fn lemma_cleanup_removes_expired(m: Map<Seq<char>, EntryView>, now: u64, key: Seq<char>)
    requires
        m.contains_key(key),
        m[key].is_expired(now),
    ensures
        !live_entries(m, now).contains_key(key),
        lookup(live_entries(m, now), key, now) is None,
{
}

/// LRU eviction never takes a key that was read more recently than another
/// key still in the cache: the victim is the one whose last access is oldest.
pub proof fn lemma_recent_read_is_not_victim(
    m: Map<Seq<char>, EntryView>,
    key: Seq<char>,
    other: Seq<char>,
)
    requires
        m.contains_key(key),
        m.contains_key(other),
        m[other].last_accessed_at < m[key].last_accessed_at,
    ensures
        !is_lru_victim(m, key),
{
}

/// A read at `now` that finds its key makes that key the most recent: after
/// it, any other key accessed before `now` is evicted first.
pub proof fn lemma_read_protects_from_eviction(
    m: Map<Seq<char>, EntryView>,
    key: Seq<char>,
    now: u64,
    other: Seq<char>,
)
    requires
        m.contains_key(key),
        !m[key].is_expired(now),
        m.contains_key(other),
        other != key,
        m[other].last_accessed_at < now,
    ensures
        !is_lru_victim(apply_step(m, (EntriesStep::Read { key, now })), key),
{
    let m2 = apply_step(m, EntriesStep::Read { key, now });
    assert(m2[key].last_accessed_at == now);
    assert(m2.contains_key(other) && m2[other] == m[other]);
}

} // verus!
