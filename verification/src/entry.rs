//! One stored value together with its time and access metadata.

use vstd::prelude::*;

verus! {

/// Adds `n` to a 64-bit counter modulo 2^64, as a hardware counter does.
pub open spec fn counter_add(x: u64, n: u64) -> u64 {
    ((x + n) % 0x1_0000_0000_0000_0000) as u64
}

/// Mathematical model of a [`CacheEntry`].
pub struct EntryView {
    pub value: Seq<u8>,
    pub expires_at: Option<u64>,
    pub created_at: u64,
    pub last_accessed_at: u64,
    pub hits: u64,
}

impl EntryView {
    /// An entry has expired at `now` when it has a deadline and `now` has reached it.
    pub open spec fn is_expired(self, now: u64) -> bool {
        match self.expires_at {
            Some(exp) => now >= exp,
            None => false,
        }
    }

    /// A freshly written entry: created and last accessed at `now`, never read.
    pub open spec fn fresh(value: Seq<u8>, expires_at: Option<u64>, now: u64) -> EntryView {
        EntryView { value, expires_at, created_at: now, last_accessed_at: now, hits: 0 }
    }

    /// The entry after one successful read at `now`.
    pub open spec fn touched(self, now: u64) -> EntryView {
        EntryView { last_accessed_at: now, hits: counter_add(self.hits, 1), ..self }
    }
}

/// Value stored under a key, with its time and access metadata.
///
/// `value` is opaque to the cache: whoever stores it has already serialized it.
#[derive(Debug, Clone)]
pub struct CacheEntry {
    /// The serialized value.
    pub value: Vec<u8>,
    /// Expiry instant in epoch milliseconds; `None` never expires.
    pub expires_at: Option<u64>,
    /// When the entry was created (epoch milliseconds).
    pub created_at: u64,
    /// Last successful read (epoch milliseconds); the recency used by LRU eviction.
    pub last_accessed_at: u64,
    /// How many times the entry was read.
    pub hits: u64,
}

impl View for CacheEntry {
    type V = EntryView;

    open spec fn view(&self) -> EntryView {
        EntryView {
            value: self.value@,
            expires_at: self.expires_at,
            created_at: self.created_at,
            last_accessed_at: self.last_accessed_at,
            hits: self.hits,
        }
    }
}

impl CacheEntry {
    /// A new entry, with `created_at` and `last_accessed_at` set to `now`.
    pub fn new(value: Vec<u8>, expires_at: Option<u64>, now: u64) -> (e: Self)
        ensures
            e@ == EntryView::fresh(value@, expires_at, now),
    {
        CacheEntry { value, expires_at, created_at: now, last_accessed_at: now, hits: 0 }
    }

    /// `true` when the entry has expired at `now` (epoch milliseconds).
    /// Entries without a deadline never expire.
    pub fn is_expired(&self, now: u64) -> (r: bool)
        ensures
            r == self@.is_expired(now),
    {
        match self.expires_at {
            Some(exp) => now >= exp,
            None => false,
        }
    }

    /// The entry after one successful read at `now`: `last_accessed_at`
    /// becomes `now` and the read count grows by one (modulo 2^64); the value
    /// and the times of creation and expiry are kept.
    pub fn touched_at(self, now: u64) -> (e: Self)
        ensures
            e@ == self@.touched(now),
            e.last_accessed_at == now,
            e.value@ == self.value@,
            e.expires_at == self.expires_at,
            e.created_at == self.created_at,
    {
        CacheEntry { last_accessed_at: now, hits: self.hits.wrapping_add(1), ..self }
    }
}

/// A successful read records its own time as the entry's recency, whatever
/// reads came before, and keeps the value, the deadline and the creation time.
pub proof fn lemma_read_records_its_time(e: EntryView, now: u64)
    ensures
        e.touched(now).last_accessed_at == now,
        e.touched(now).value == e.value,
        e.touched(now).expires_at == e.expires_at,
        e.touched(now).created_at == e.created_at,
        e.touched(now).hits == (e.hits + 1) % 0x1_0000_0000_0000_0000,
{
}

} // verus!
