# rust_py_cache

The verified core of a process-local key/value cache for Python: string keys,
opaque byte values, optional expiry deadlines with lazy expiration, usage
counters, and an optional size limit that either rejects new keys or evicts
the least recently used entry.

- `src/entry.rs`: `CacheEntry` and its model `EntryView`.
- `src/stats.rs`: the wrapping usage counters.
- `src/store.rs`: the `dashmap::DashMap` that holds the entries, reached
  only through trusted wrappers whose contracts speak of its contents.
- `src/cache.rs`: `RustCache` (set, get, exists, delete, keys, cleanup,
  eviction) with its contracts and the laws relating its operations.
- `src/ttl.rs`: the wall clock in epoch milliseconds.
- `src/sweeper.rs`: the decisions of the background sweeper.
- `app/`: the PyO3 bridge (`pickle` serialization, the Python `Cache` class,
  TTL conversion from float seconds) and the sweeper thread.

Concurrency: the verified core changes its state through `&mut self`, so each
operation has exclusive access. The Python `Cache` class therefore holds the
core behind one `Mutex`, taken only around each core call (never while
`pickle` runs Python code). Calls from several threads are safe, but they no
longer run in parallel on different shards of the map.
