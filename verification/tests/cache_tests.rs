use rust_py_cache::cache::{EvictionPolicy, RustCache};

// A fixed `now` makes expiry testable without the real clock.
const NOW: u64 = 1_000_000;

#[test]
fn set_then_get_returns_value() {
    let mut c = RustCache::new(None, EvictionPolicy::Reject);
    c.set("a".into(), b"v".to_vec(), None, NOW);
    assert_eq!(c.get("a", NOW), Some(b"v".to_vec()));
    assert_eq!(c.len(), 1);
}

#[test]
fn get_missing_is_none_and_counts_miss() {
    let mut c = RustCache::new(None, EvictionPolicy::Reject);
    assert_eq!(c.get("x", NOW), None);
    assert_eq!(c.stats().misses, 1);
}

#[test]
fn expired_get_collects_and_counts() {
    let mut c = RustCache::new(None, EvictionPolicy::Reject);
    c.set("a".into(), b"v".to_vec(), Some(NOW + 10), NOW);
    // still valid
    assert!(c.get("a", NOW + 5).is_some());
    // after the deadline: removed and counted
    assert_eq!(c.get("a", NOW + 20), None);
    assert_eq!(c.len(), 0);
    let s = c.stats();
    assert_eq!(s.expired, 1);
    assert_eq!(s.hits, 1);
    assert_eq!(s.misses, 1);
}

#[test]
fn exists_respects_ttl() {
    let mut c = RustCache::new(None, EvictionPolicy::Reject);
    c.set("a".into(), b"v".to_vec(), Some(NOW + 10), NOW);
    assert!(c.key_exists("a", NOW + 5));
    assert!(!c.key_exists("a", NOW + 20));
    assert_eq!(c.len(), 0); // collected
}

#[test]
fn delete_counts_only_real_removals() {
    let mut c = RustCache::new(None, EvictionPolicy::Reject);
    c.set("a".into(), b"v".to_vec(), None, NOW);
    assert!(c.delete("a"));
    assert!(!c.delete("a"));
    assert_eq!(c.stats().deletes, 1);
}

#[test]
fn cleanup_removes_only_expired() {
    let mut c = RustCache::new(None, EvictionPolicy::Reject);
    c.set("keep".into(), b"v".to_vec(), None, NOW);
    c.set("gone".into(), b"v".to_vec(), Some(NOW + 10), NOW);
    let removed = c.cleanup_expired(NOW + 20);
    assert_eq!(removed, 1);
    assert!(c.key_exists("keep", NOW + 20));
    assert!(!c.key_exists("gone", NOW + 20));
    assert_eq!(c.stats().expired, 1);
}

#[test]
fn reject_policy_blocks_new_keys_when_full() {
    let mut c = RustCache::new(Some(2), EvictionPolicy::Reject);
    assert!(c.set("a".into(), b"1".to_vec(), None, NOW));
    assert!(c.set("b".into(), b"2".to_vec(), None, NOW));
    // full + new key => rejected, no eviction
    assert!(!c.set("c".into(), b"3".to_vec(), None, NOW));
    assert_eq!(c.len(), 2);
    assert_eq!(c.stats().evicted, 0);
    // overwriting an existing key is always allowed
    assert!(c.set("a".into(), b"10".to_vec(), None, NOW));
}

#[test]
fn lru_policy_evicts_least_recently_used() {
    let mut c = RustCache::new(Some(2), EvictionPolicy::Lru);
    c.set("a".into(), b"1".to_vec(), None, NOW);
    c.set("b".into(), b"2".to_vec(), None, NOW);
    // Reading "a" later makes "b" the least recently used.
    assert!(c.get("a", NOW + 5).is_some());
    // Inserting "c" evicts "b" (LRU), keeps "a" and "c".
    assert!(c.set("c".into(), b"3".to_vec(), None, NOW + 10));
    assert_eq!(c.len(), 2);
    assert_eq!(c.stats().evicted, 1);
    assert!(c.get("b", NOW + 11).is_none());
    assert!(c.get("a", NOW + 11).is_some());
    assert!(c.get("c", NOW + 11).is_some());
}

#[test]
fn no_max_size_never_evicts() {
    let mut c = RustCache::new(None, EvictionPolicy::Lru);
    for i in 0..50 {
        c.set(format!("k{i}"), b"v".to_vec(), None, NOW);
    }
    assert_eq!(c.len(), 50);
    assert_eq!(c.stats().evicted, 0);
}
