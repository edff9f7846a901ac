//! What the library assumes of `std::time::Duration` and of the clock.

use std::time::Duration;
use vstd::prelude::*;

verus! {

/// The length of a `Duration` in whole nanoseconds.
pub uninterp spec fn duration_nanos(d: Duration) -> nat;

/// Nanoseconds in one second.
pub const NANOS_PER_SEC: u128 = 1_000_000_000;

/// The length of the longest `Duration`, in nanoseconds: `u64::MAX` seconds
/// and 999,999,999 nanoseconds.
pub open spec fn max_duration_nanos() -> nat {
    (u64::MAX as nat) * 1_000_000_000 + 999_999_999
}

/// `Duration::as_nanos` returns the whole length in nanoseconds, which no
/// `Duration` carries beyond that of `Duration::MAX`.
pub assume_specification[ Duration::as_nanos ](d: &Duration) -> (n: u128)
    ensures
        n == duration_nanos(*d),
        n <= max_duration_nanos(),
;

/// `Duration::new` builds the duration of `secs` seconds and `nanos`
/// nanoseconds, carrying whole seconds out of `nanos`; it panics when that
/// carry overflows the seconds.
pub assume_specification[ Duration::new ](secs: u64, nanos: u32) -> (d: Duration)
    requires
        secs + nanos / 1_000_000_000 <= u64::MAX,
    ensures
        duration_nanos(d) == secs * 1_000_000_000 + nanos,
;

/// An instant of the system clock: whole seconds since the Unix epoch, and
/// the nanoseconds past them.
#[derive(Clone, Copy, Debug)]
pub struct Timestamp {
    pub secs: i64,
    pub nanos: u32,
}

/// Reads the system clock through `chrono::Local::now`. Nothing is claimed
/// of the instant that comes back.
#[verifier::external_body]
pub(crate) fn now() -> (t: Timestamp) {
    let t = chrono::Local::now();
    Timestamp { secs: t.timestamp(), nanos: t.timestamp_subsec_nanos() }
}

/// The length of an optional `Duration` in nanoseconds.
pub open spec fn nanos_opt(d: Option<Duration>) -> Option<nat> {
    match d {
        Some(d) => Some(duration_nanos(d)),
        None => None,
    }
}

/// The `Duration` that lasts `n` nanoseconds.
pub fn duration_of_nanos(n: u128) -> (d: Duration)
    requires
        n <= max_duration_nanos(),
    ensures
        duration_nanos(d) == n,
{
    let secs = (n / NANOS_PER_SEC) as u64;
    let sub = (n % NANOS_PER_SEC) as u32;
    Duration::new(secs, sub)
}

/// The `Duration` that lasts as many nanoseconds as `n` holds, if any.
pub fn duration_of_nanos_opt(n: Option<u128>) -> (d: Option<Duration>)
    requires
        n matches Some(v) ==> v <= max_duration_nanos(),
    ensures
        nanos_opt(d) == match n {
            Some(v) => Some(v as nat),
            None => None,
        },
{
    match n {
        Some(v) => Some(duration_of_nanos(v)),
        None => None,
    }
}

} // verus!
