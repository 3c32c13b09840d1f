use rust_py_cache::cache::{EvictionPolicy, RustCache};
use rust_py_cache::entry::CacheEntry;
use rust_py_cache::stats::CacheStats;
use rust_py_cache::sweeper::{SweepClock, SweepStep, TICK_NANOS};
use rust_py_cache::ttl::{epoch_millis, now_ms};

const NOW: u64 = 1_000_000;

#[test]
fn entry_new_sets_times_and_no_hits() {
    let e = CacheEntry::new(b"xy".to_vec(), Some(NOW + 3), NOW);
    assert_eq!(e.value, b"xy".to_vec());
    assert_eq!(e.expires_at, Some(NOW + 3));
    assert_eq!(e.created_at, NOW);
    assert_eq!(e.last_accessed_at, NOW);
    assert_eq!(e.hits, 0);
}

#[test]
fn entry_expiry_boundary() {
    let e = CacheEntry::new(b"v".to_vec(), Some(NOW + 10), NOW);
    assert!(!e.is_expired(NOW + 9));
    assert!(e.is_expired(NOW + 10));
    assert!(e.is_expired(NOW + 11));
    let forever = CacheEntry::new(b"v".to_vec(), None, NOW);
    assert!(!forever.is_expired(u64::MAX));
}

#[test]
fn entry_touched_at_records_access() {
    let e = CacheEntry::new(b"v".to_vec(), Some(NOW + 10), NOW);
    let e = e.touched_at(NOW + 4);
    assert_eq!(e.value, b"v".to_vec());
    assert_eq!(e.expires_at, Some(NOW + 10));
    assert_eq!(e.created_at, NOW);
    assert_eq!(e.last_accessed_at, NOW + 4);
    assert_eq!(e.hits, 1);
    let mut worn = CacheEntry::new(b"v".to_vec(), None, NOW);
    worn.hits = u64::MAX;
    assert_eq!(worn.touched_at(NOW).hits, 0);
}

#[test]
fn stats_counters_wrap_around() {
    let mut s = CacheStats::new();
    s.hits = u64::MAX;
    s.record_hit();
    s.record_miss();
    s.record_set();
    s.record_delete();
    s.record_expired(5);
    s.record_evicted();
    let snap = s.snapshot();
    assert_eq!(snap.hits, 0);
    assert_eq!(snap.misses, 1);
    assert_eq!(snap.sets, 1);
    assert_eq!(snap.deletes, 1);
    assert_eq!(snap.expired, 5);
    assert_eq!(snap.evicted, 1);
}

#[test]
fn read_after_write_and_overwrite() {
    let mut c = RustCache::new(None, EvictionPolicy::Reject);
    assert!(c.set("k".into(), b"1".to_vec(), Some(NOW + 100), NOW));
    assert_eq!(c.get("k", NOW + 99), Some(b"1".to_vec()));
    assert!(c.set("k".into(), b"2".to_vec(), None, NOW + 1));
    assert_eq!(c.get("k", NOW + 1_000_000), Some(b"2".to_vec()));
    assert_eq!(c.len(), 1);
    assert_eq!(c.stats().sets, 2);
    assert_eq!(c.stats().hits, 2);
}

#[test]
fn no_read_at_or_after_deadline() {
    let mut c = RustCache::new(None, EvictionPolicy::Reject);
    c.set("k".into(), b"1".to_vec(), Some(NOW + 10), NOW);
    assert_eq!(c.get("k", NOW + 10), None);
    assert_eq!(c.get("k", NOW + 5), None); // collected: gone for earlier times too
    let s = c.stats();
    assert_eq!(s.expired, 1);
    assert_eq!(s.misses, 2);
}

#[test]
fn write_keeps_other_keys() {
    let mut c = RustCache::new(None, EvictionPolicy::Reject);
    c.set("a".into(), b"1".to_vec(), None, NOW);
    c.set("b".into(), b"2".to_vec(), None, NOW);
    c.set("a".into(), b"3".to_vec(), None, NOW);
    assert_eq!(c.get("b", NOW), Some(b"2".to_vec()));
    assert_eq!(c.get("a", NOW), Some(b"3".to_vec()));
}

#[test]
fn read_after_delete_is_none() {
    let mut c = RustCache::new(None, EvictionPolicy::Reject);
    c.set("a".into(), b"1".to_vec(), None, NOW);
    assert!(c.delete("a"));
    assert_eq!(c.get("a", NOW), None);
    assert!(!c.key_exists("a", NOW));
    assert!(!c.delete("a"));
}

#[test]
fn delete_counts_expired_but_uncollected_entry() {
    let mut c = RustCache::new(None, EvictionPolicy::Reject);
    c.set("a".into(), b"1".to_vec(), Some(NOW + 1), NOW);
    // no clock is consulted by delete: the entry is still in the map
    assert!(c.delete("a"));
    assert_eq!(c.stats().deletes, 1);
    assert_eq!(c.stats().expired, 0);
}

#[test]
fn exists_leaves_hits_and_misses_alone() {
    let mut c = RustCache::new(None, EvictionPolicy::Reject);
    c.set("a".into(), b"1".to_vec(), Some(NOW + 10), NOW);
    assert!(c.key_exists("a", NOW));
    assert!(!c.key_exists("zz", NOW));
    let s = c.stats();
    assert_eq!(s.hits, 0);
    assert_eq!(s.misses, 0);
    assert!(!c.key_exists("a", NOW + 10));
    assert_eq!(c.stats().expired, 1);
}

#[test]
fn keys_lists_every_key_once_including_expired() {
    let mut c = RustCache::new(None, EvictionPolicy::Reject);
    c.set("x".into(), b"1".to_vec(), None, NOW);
    c.set("y".into(), b"2".to_vec(), Some(NOW + 1), NOW);
    c.set("x".into(), b"3".to_vec(), None, NOW);
    let mut ks = c.keys();
    ks.sort();
    assert_eq!(ks, vec!["x".to_string(), "y".to_string()]);
    assert_eq!(c.len(), 2);
}

#[test]
fn cleanup_then_reads_unchanged_at_now() {
    let mut c = RustCache::new(None, EvictionPolicy::Reject);
    c.set("a".into(), b"1".to_vec(), Some(NOW + 5), NOW);
    c.set("b".into(), b"2".to_vec(), Some(NOW + 50), NOW);
    c.set("c".into(), b"3".to_vec(), Some(NOW + 6), NOW);
    assert_eq!(c.cleanup_expired(NOW + 10), 2);
    assert_eq!(c.len(), 1);
    assert_eq!(c.get("b", NOW + 10), Some(b"2".to_vec()));
    assert_eq!(c.cleanup_expired(NOW + 10), 0);
    assert_eq!(c.stats().expired, 2);
}

#[test]
fn clear_keeps_counters() {
    let mut c = RustCache::new(None, EvictionPolicy::Reject);
    c.set("a".into(), b"1".to_vec(), None, NOW);
    c.get("a", NOW);
    c.clear();
    assert_eq!(c.len(), 0);
    assert_eq!(c.get("a", NOW), None);
    let s = c.stats();
    assert_eq!(s.sets, 1);
    assert_eq!(s.hits, 1);
    assert_eq!(s.misses, 1);
}

#[test]
fn capacity_is_kept_under_lru() {
    let mut c = RustCache::new(Some(3), EvictionPolicy::Lru);
    for i in 0..10u64 {
        assert!(c.set(format!("k{i}"), b"v".to_vec(), None, NOW + i));
        assert!(c.len() <= 3);
    }
    assert_eq!(c.stats().evicted, 7);
    // the three most recent writes survive
    let mut ks = c.keys();
    ks.sort();
    assert_eq!(ks, vec!["k7".to_string(), "k8".to_string(), "k9".to_string()]);
}

#[test]
fn zero_limit_reject_never_stores() {
    let mut c = RustCache::new(Some(0), EvictionPolicy::Reject);
    assert!(!c.set("a".into(), b"1".to_vec(), None, NOW));
    assert_eq!(c.len(), 0);
    assert_eq!(c.stats().sets, 0);
}

#[test]
fn zero_limit_lru_rejects_when_nothing_to_evict() {
    let mut c = RustCache::new(Some(0), EvictionPolicy::Lru);
    assert!(!c.set("a".into(), b"1".to_vec(), None, NOW));
    assert_eq!(c.len(), 0);
    assert_eq!(c.stats().sets, 0);
    assert_eq!(c.stats().evicted, 0);
}

#[test]
fn policy_is_reported_and_defaults_to_reject() {
    let c = RustCache::new(Some(1), EvictionPolicy::Lru);
    assert_eq!(c.eviction_policy(), EvictionPolicy::Lru);
    assert_eq!(EvictionPolicy::default(), EvictionPolicy::Reject);
}

#[test]
fn now_ms_reads_a_plausible_clock() {
    let a = now_ms().expect("clock after the epoch");
    let b = now_ms().expect("clock after the epoch");
    // after 2020-01-01 and monotone enough between two immediate reads
    assert!(a > 1_577_836_800_000);
    assert!(b + 1000 >= a);
}

#[test]
fn sweep_clock_sleeps_in_ticks_then_sweeps() {
    let interval: u128 = 450_000_000;
    let mut clock = SweepClock::new(interval);
    let mut total: u128 = 0;
    let mut slices = Vec::new();
    loop {
        match clock.next_step(false) {
            SweepStep::Sleep(n) => {
                slices.push(n);
                total += n as u128;
                clock.slept(n);
            }
            SweepStep::Sweep => break,
            SweepStep::Stop => panic!("no stop was requested"),
        }
    }
    assert_eq!(slices, vec![TICK_NANOS, TICK_NANOS, 50_000_000]);
    assert_eq!(total, interval);
    clock.swept();
    assert_eq!(clock.next_step(false), SweepStep::Sleep(TICK_NANOS));
    assert_eq!(clock.next_step(true), SweepStep::Stop);
}

#[test]
fn sweep_stops_when_cache_is_gone() {
    let clock = SweepClock::new(0);
    assert_eq!(clock.sweep_or_stop(true), SweepStep::Sweep);
    assert_eq!(clock.sweep_or_stop(false), SweepStep::Stop);
}

#[test]
fn counters_are_cumulative() {
    let mut c = RustCache::new(Some(1), EvictionPolicy::Lru);
    let s1 = c.stats();
    c.set("a".into(), b"1".to_vec(), Some(NOW + 5), NOW);
    c.get("a", NOW);
    c.get("zz", NOW);
    c.set("b".into(), b"2".to_vec(), None, NOW + 1);
    c.key_exists("b", NOW + 1);
    c.delete("b");
    c.clear();
    let s2 = c.stats();
    assert!(s2.hits >= s1.hits && s2.misses >= s1.misses && s2.sets >= s1.sets);
    assert!(s2.deletes >= s1.deletes && s2.expired >= s1.expired && s2.evicted >= s1.evicted);
    assert_eq!((s2.hits, s2.misses, s2.sets, s2.deletes, s2.evicted), (1, 1, 2, 1, 1));
}

#[test]
fn value_survives_unrelated_operations() {
    let mut c = RustCache::new(None, EvictionPolicy::Lru);
    c.set("k".into(), b"v".to_vec(), Some(NOW + 100), NOW);
    c.set("other".into(), b"o".to_vec(), Some(NOW + 1), NOW);
    assert!(c.key_exists("k", NOW + 50));
    assert_eq!(c.cleanup_expired(NOW + 60), 1);
    assert!(c.delete("other") == false);
    assert_eq!(c.get("other", NOW + 99), None);
    assert_eq!(c.get("k", NOW + 99), Some(b"v".to_vec()));
}

#[test]
fn sweep_clock_zero_interval_sweeps_at_once() {
    let clock = SweepClock::new(0);
    assert_eq!(clock.next_step(false), SweepStep::Sweep);
    assert_eq!(clock.next_step(true), SweepStep::Stop);
}

#[test]
fn stats_default_is_zero() {
    let s = CacheStats::default().snapshot();
    assert_eq!(
        (s.hits, s.misses, s.sets, s.deletes, s.expired, s.evicted),
        (0, 0, 0, 0, 0, 0)
    );
}

#[test]
fn epoch_millis_truncates_and_clamps() {
    assert_eq!(epoch_millis(Some(1_700_000_000_123)), Some(1_700_000_000_123));
    assert_eq!(epoch_millis(Some((1u128 << 64) + 7)), Some(7));
    assert_eq!(epoch_millis(None), None);
}
