//! The concurrent map that holds the entries, `dashmap::DashMap`, and the
//! trusted wrappers through which the cache reaches it.
//!
//! The map's contents are named by [`store_contents`]: for each key, by its
//! text, the view of its entry. Each wrapper states what the called method
//! does to those contents. `DashMap` mutates through `&self` (its shards lock
//! internally); the wrappers that change the contents take `&mut`, so a
//! change is always made with exclusive access. With no other thread
//! interleaving, the map behaves as a plain map: what is inserted is found
//! again, a removed key is gone, `len` counts the keys.

use vstd::prelude::*;
use dashmap::DashMap;
use crate::entry::{CacheEntry, EntryView};

verus! {

#[verifier::external_type_specification]
#[verifier::external_body]
#[verifier::reject_recursive_types(K)]
#[verifier::reject_recursive_types(V)]
#[verifier::reject_recursive_types(S)]
pub struct ExDashMap<K, V, S>(DashMap<K, V, S>);

/// What a store holds: for each key (by its text), the view of its entry.
pub uninterp spec fn store_contents(store: DashMap<String, CacheEntry>) -> Map<Seq<char>, EntryView>;

/// The contents of an empty store.
pub open spec fn no_entries() -> Map<Seq<char>, EntryView> {
    Map::empty()
}

/// The keys of a snapshot, in the order the snapshot lists them.
pub open spec fn snapshot_keys(s: Seq<(String, Option<u64>, u64)>) -> Seq<Seq<char>> {
    s.map_values(|t: (String, Option<u64>, u64)| t.0@)
}

/// `DashMap::new`: an empty map.
#[verifier::external_body]
pub(crate) fn store_new() -> (m: DashMap<String, CacheEntry>)
    ensures
        store_contents(m) == no_entries(),
{
    DashMap::new()
}

/// `DashMap::len`: the number of keys (exact here: no other thread holds the map).
#[verifier::external_body]
pub(crate) fn store_len(m: &DashMap<String, CacheEntry>) -> (n: usize)
    ensures
        n == store_contents(*m).len(),
{
    m.len()
}

/// `DashMap::contains_key`: whether the key is present.
#[verifier::external_body]
pub(crate) fn store_contains_key(m: &DashMap<String, CacheEntry>, key: &str) -> (r: bool)
    ensures
        r == store_contents(*m).contains_key(key@),
{
    m.contains_key(key)
}

/// `DashMap::insert`: stores the entry under the key, replacing any previous
/// one, which it hands back.
#[verifier::external_body]
pub(crate) fn store_insert(m: &mut DashMap<String, CacheEntry>, key: String, entry: CacheEntry) -> (r:
    Option<CacheEntry>)
    ensures
        store_contents(*final(m)) == store_contents(*old(m)).insert(key@, entry@),
        r is Some <==> store_contents(*old(m)).contains_key(key@),
        r matches Some(e) ==> e@ == store_contents(*old(m))[key@],
{
    m.insert(key, entry)
}

/// `DashMap::view`, taking a copy of the entry's bytes and its deadline:
/// `None` when the key is absent.
#[verifier::external_body]
pub(crate) fn store_value_and_deadline(m: &DashMap<String, CacheEntry>, key: &str) -> (r: Option<
    (Vec<u8>, Option<u64>),
>)
    ensures
        r is Some <==> store_contents(*m).contains_key(key@),
        r matches Some(p) ==> p.0@ == store_contents(*m)[key@].value && p.1 == store_contents(
            *m,
        )[key@].expires_at,
{
    m.view(key, |_, v| (v.value.clone(), v.expires_at))
}

/// `DashMap::get`, taking the entry's deadline: `None` when the key is absent.
#[verifier::external_body]
pub(crate) fn store_deadline(m: &DashMap<String, CacheEntry>, key: &str) -> (r: Option<Option<u64>>)
    ensures
        r is Some <==> store_contents(*m).contains_key(key@),
        r matches Some(d) ==> d == store_contents(*m)[key@].expires_at,
{
    m.get(key).map(|r| r.value().expires_at)
}

/// `DashMap::alter`, with `CacheEntry::touched_at` as the replacing function:
/// records a read at `now` on the key's entry; nothing when the key is absent.
#[verifier::external_body]
pub(crate) fn store_touch(m: &mut DashMap<String, CacheEntry>, key: &str, now: u64)
    ensures
        ({
            let old_c = store_contents(*old(m));
            if old_c.contains_key(key@) {
                store_contents(*final(m)) == old_c.insert(key@, old_c[key@].touched(now))
            } else {
                store_contents(*final(m)) == old_c
            }
        }),
{
    m.alter(key, |_, e| e.touched_at(now))
}

/// `DashMap::remove`: removes the key, handing back the pair it held, if any.
#[verifier::external_body]
pub(crate) fn store_remove(m: &mut DashMap<String, CacheEntry>, key: &str) -> (r: Option<
    (String, CacheEntry),
>)
    ensures
        store_contents(*final(m)) == store_contents(*old(m)).remove(key@),
        r is Some <==> store_contents(*old(m)).contains_key(key@),
        r matches Some(p) ==> p.0@ == key@ && p.1@ == store_contents(*old(m))[key@],
{
    m.remove(key)
}

/// `DashMap::remove_if`, with the condition `CacheEntry::is_expired` at `now`:
/// removes the key only when it is present and its entry has expired.
#[verifier::external_body]
pub(crate) fn store_remove_if_expired(m: &mut DashMap<String, CacheEntry>, key: &str, now: u64) -> (r:
    Option<(String, CacheEntry)>)
    ensures
        ({
            let old_c = store_contents(*old(m));
            if old_c.contains_key(key@) && old_c[key@].is_expired(now) {
                &&& store_contents(*final(m)) == old_c.remove(key@)
                &&& r matches Some(p) && p.0@ == key@ && p.1@ == old_c[key@]
            } else {
                &&& store_contents(*final(m)) == old_c
                &&& r is None
            }
        }),
{
    m.remove_if(key, |_, v| v.is_expired(now))
}

/// `DashMap::iter`, each item taken as its key with the entry's deadline and
/// recency. Every key appears exactly once; the order is the map's walk
/// order, which depends on the per-process hash seed, so nothing is stated
/// of it.
#[verifier::external_body]
pub(crate) fn store_iter(m: &DashMap<String, CacheEntry>) -> (r: Vec<(String, Option<u64>, u64)>)
    ensures
        snapshot_keys(r@).no_duplicates(),
        snapshot_keys(r@).to_set() == store_contents(*m).dom(),
        forall|i: int|
            0 <= i < r@.len() ==> {
                let e = store_contents(*m)[#[trigger] r@[i].0@];
                r@[i].1 == e.expires_at && r@[i].2 == e.last_accessed_at
            },
{
    m.iter().map(|e| (e.key().clone(), e.value().expires_at, e.value().last_accessed_at)).collect()
}

/// `DashMap::clear`: removes every key.
#[verifier::external_body]
pub(crate) fn store_clear(m: &mut DashMap<String, CacheEntry>)
    ensures
        store_contents(*final(m)) == no_entries(),
{
    m.clear()
}

} // verus!
