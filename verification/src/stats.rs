//! Usage counters of the cache.
//!
//! Every counter is a 64-bit value that wraps around modulo 2^64 when it
//! overflows, as a hardware fetch-and-add does.

use vstd::prelude::*;
use crate::entry::counter_add;

verus! {

/// Cumulative usage counters.
#[derive(Debug)]
pub struct CacheStats {
    pub hits: u64,
    pub misses: u64,
    pub sets: u64,
    pub deletes: u64,
    pub expired: u64,
    pub evicted: u64,
}

/// A frozen copy of the counters at one instant.
#[derive(Debug, Clone, Copy)]
pub struct StatsSnapshot {
    pub hits: u64,
    pub misses: u64,
    pub sets: u64,
    pub deletes: u64,
    pub expired: u64,
    pub evicted: u64,
}

/// One thing the counters record.
pub enum CounterEvent {
    Hit,
    Miss,
    Write,
    Delete,
    Expired(u64),
    Evicted,
}

impl StatsSnapshot {
    /// All counters at zero.
    pub open spec fn zero() -> StatsSnapshot {
        StatsSnapshot { hits: 0, misses: 0, sets: 0, deletes: 0, expired: 0, evicted: 0 }
    }

    /// The counters after recording `ev`: its counter grows by one (by `n`
    /// for `Expired(n)`), modulo 2^64; the others are kept.
    pub open spec fn recorded(self, ev: CounterEvent) -> StatsSnapshot {
        match ev {
            CounterEvent::Hit => StatsSnapshot { hits: counter_add(self.hits, 1), ..self },
            CounterEvent::Miss => StatsSnapshot { misses: counter_add(self.misses, 1), ..self },
            CounterEvent::Write => StatsSnapshot { sets: counter_add(self.sets, 1), ..self },
            CounterEvent::Delete => StatsSnapshot { deletes: counter_add(self.deletes, 1), ..self },
            CounterEvent::Expired(n) => StatsSnapshot { expired: counter_add(self.expired, n), ..self },
            CounterEvent::Evicted => StatsSnapshot { evicted: counter_add(self.evicted, 1), ..self },
        }
    }

    /// The counters after recording the events in order.
    pub open spec fn recorded_all(self, evs: Seq<CounterEvent>) -> StatsSnapshot
        decreases evs.len(),
    {
        if evs.len() == 0 {
            self
        } else {
            self.recorded(evs[0]).recorded_all(evs.drop_first())
        }
    }

    /// Recording `ev` does not carry its counter past 2^64 - 1.
    pub open spec fn fits(self, ev: CounterEvent) -> bool {
        match ev {
            CounterEvent::Hit => self.hits + 1 <= u64::MAX,
            CounterEvent::Miss => self.misses + 1 <= u64::MAX,
            CounterEvent::Write => self.sets + 1 <= u64::MAX,
            CounterEvent::Delete => self.deletes + 1 <= u64::MAX,
            CounterEvent::Expired(n) => self.expired + n <= u64::MAX,
            CounterEvent::Evicted => self.evicted + 1 <= u64::MAX,
        }
    }

    /// Recording the events in order never carries a counter past 2^64 - 1.
    pub open spec fn fits_all(self, evs: Seq<CounterEvent>) -> bool
        decreases evs.len(),
    {
        evs.len() == 0 || (self.fits(evs[0]) && self.recorded(evs[0]).fits_all(evs.drop_first()))
    }

    /// No counter of `self` is below the same counter of `other`.
    pub open spec fn dominates(self, other: StatsSnapshot) -> bool {
        &&& self.hits >= other.hits
        &&& self.misses >= other.misses
        &&& self.sets >= other.sets
        &&& self.deletes >= other.deletes
        &&& self.expired >= other.expired
        &&& self.evicted >= other.evicted
    }
}

/// The counters are cumulative: as long as no counter wraps around, a
/// snapshot taken after any sequence of recordings has every counter at
/// least as large as a snapshot taken before.
pub proof fn lemma_counters_cumulative(s: StatsSnapshot, evs: Seq<CounterEvent>)
    requires
        s.fits_all(evs),
    ensures
        s.recorded_all(evs).dominates(s),
    decreases evs.len(),
{
    if evs.len() > 0 {
        lemma_counters_cumulative(s.recorded(evs[0]), evs.drop_first());
    }
}

impl Default for CacheStats {
    /// All counters at zero.
    fn default() -> (s: Self)
        ensures
            s.counters() == StatsSnapshot::zero(),
    {
        CacheStats::new()
    }
}

impl CacheStats {
    /// The counters' current values.
    pub open spec fn counters(&self) -> StatsSnapshot {
        StatsSnapshot {
            hits: self.hits,
            misses: self.misses,
            sets: self.sets,
            deletes: self.deletes,
            expired: self.expired,
            evicted: self.evicted,
        }
    }

    /// All counters start at zero.
    pub fn new() -> (s: Self)
        ensures
            s.counters() == StatsSnapshot::zero(),
    {
        CacheStats { hits: 0, misses: 0, sets: 0, deletes: 0, expired: 0, evicted: 0 }
    }

    /// Counts one read that found a live value.
    pub fn record_hit(&mut self)
        ensures
            final(self).counters() == old(self).counters().recorded(CounterEvent::Hit),
    {
        self.hits = self.hits.wrapping_add(1);
    }

    /// Counts one read that found no live value.
    pub fn record_miss(&mut self)
        ensures
            final(self).counters() == old(self).counters().recorded(CounterEvent::Miss),
    {
        self.misses = self.misses.wrapping_add(1);
    }

    /// Counts one write.
    pub fn record_set(&mut self)
        ensures
            final(self).counters() == old(self).counters().recorded(CounterEvent::Write),
    {
        self.sets = self.sets.wrapping_add(1);
    }

    /// Counts one explicit removal of a present key.
    pub fn record_delete(&mut self)
        ensures
            final(self).counters() == old(self).counters().recorded(CounterEvent::Delete),
    {
        self.deletes = self.deletes.wrapping_add(1);
    }

    /// Adds `n` expired entries collected at once.
    pub fn record_expired(&mut self, n: u64)
        ensures
            final(self).counters() == old(self).counters().recorded(CounterEvent::Expired(n)),
    {
        self.expired = self.expired.wrapping_add(n);
    }

    /// Counts one entry removed by eviction when the size limit was reached.
    pub fn record_evicted(&mut self)
        ensures
            final(self).counters() == old(self).counters().recorded(CounterEvent::Evicted),
    {
        self.evicted = self.evicted.wrapping_add(1);
    }

    /// A copy of the counters.
    pub fn snapshot(&self) -> (s: StatsSnapshot)
        ensures
            s == self.counters(),
    {
        StatsSnapshot {
            hits: self.hits,
            misses: self.misses,
            sets: self.sets,
            deletes: self.deletes,
            expired: self.expired,
            evicted: self.evicted,
        }
    }
}

} // verus!
