//! Time helpers: instants are epoch milliseconds (`u64`), cheap to compare
//! and to store in `CacheEntry::expires_at`.

use vstd::prelude::*;
use std::time::{Duration, SystemTime, SystemTimeError, UNIX_EPOCH};

verus! {

#[verifier::external_type_specification]
#[verifier::external_body]
pub struct ExSystemTime(SystemTime);

#[verifier::external_type_specification]
#[verifier::external_body]
pub struct ExSystemTimeError(SystemTimeError);

/// `SystemTime::now`: the wall clock, read at the moment of the call.
#[verifier::external_body]
fn system_now() -> SystemTime {
    SystemTime::now()
}

/// `SystemTime::duration_since`, measured from `UNIX_EPOCH`: the time
/// elapsed since the epoch, or an error when the clock reads earlier than
/// the epoch.
#[verifier::external_body]
fn since_unix_epoch(t: &SystemTime) -> Result<Duration, SystemTimeError> {
    t.duration_since(UNIX_EPOCH)
}

/// `Duration::as_millis`: the whole milliseconds of a duration.
#[verifier::external_body]
fn whole_millis(d: &Duration) -> u128 {
    d.as_millis()
}

/// The instant kept for a reading of the milliseconds elapsed since the
/// epoch: the reading modulo 2^64; `None` when the clock read earlier than
/// the epoch (`None` reading).
pub open spec fn reading_millis(since_epoch_ms: Option<u128>) -> Option<u64> {
    match since_epoch_ms {
        Some(m) => Some((m % 0x1_0000_0000_0000_0000) as u64),
        None => None,
    }
}

/// Turns a clock reading (whole milliseconds since the epoch, or `None` for
/// a clock earlier than the epoch) into the 64-bit epoch-milliseconds
/// instant the cache uses, or `None` to report the broken clock.
pub fn epoch_millis(since_epoch_ms: Option<u128>) -> (ms: Option<u64>)
    ensures
        ms == reading_millis(since_epoch_ms),
{
    match since_epoch_ms {
        Some(m) => {
            let low: u128 = m % 0x1_0000_0000_0000_0000u128;
            Some(low as u64)
        },
        None => None,
    }
}

/// The current time in milliseconds since the Unix epoch (1970-01-01),
/// truncated to 64 bits; `None` when the system clock reads earlier than the
/// epoch, a broken environment that the caller should report. What it
/// returns depends on the moment of the call, so no clause states it;
/// `epoch_millis` states what is made of the reading.
pub fn now_ms() -> Option<u64> {
    let reading = match since_unix_epoch(&system_now()) {
        Ok(d) => Some(whole_millis(&d)),
        Err(_) => None,
    };
    epoch_millis(reading)
}

/// The instant kept for a reading is the reading itself, in the same unit
/// (milliseconds), while it fits in 64 bits: two readings `d` milliseconds
/// apart give instants `d` apart.
pub proof fn lemma_readings_keep_milliseconds(r1: u128, r2: u128)
    requires
        r1 <= r2 < 0x1_0000_0000_0000_0000,
    ensures
        reading_millis(Some(r1)) == Some(r1 as u64),
        reading_millis(Some(r2)) == Some(r2 as u64),
        reading_millis(Some(r2)).unwrap() - reading_millis(Some(r1)).unwrap() == r2 - r1,
{
}

} // verus!
