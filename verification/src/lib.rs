//! In-process key/value cache core: entries with optional expiry deadlines,
//! lazy expiration, usage counters and a bounded-size mode with either
//! rejection or least-recently-used eviction.
//!
//! The store itself is a `dashmap::DashMap`; every call into it goes through
//! the trusted wrappers of [`store`], whose contracts speak of the map's
//! contents as a `Map` from key text to [`entry::EntryView`].

pub mod entry;
pub mod stats;
pub mod store;
pub mod cache;
pub mod ttl;
pub mod sweeper;
