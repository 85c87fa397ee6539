//! Points in time, and durations in milliseconds.
use vstd::prelude::*;

verus! {

/// A length of time or a position in a film, in milliseconds.
pub type Millis = i64;

/// A point in time: whole seconds since the Unix epoch, and nanoseconds into that second.
#[derive(Clone, Copy, Debug, PartialEq, Eq, Structural)]
pub struct Timestamp {
    pub secs: i64,
    pub nanos: u32,
}

impl Timestamp {
    /// `self` lies before `other`.
    pub open spec fn earlier(self, other: Timestamp) -> bool {
        self.secs < other.secs || (self.secs == other.secs && self.nanos < other.nanos)
    }

    /// Nanoseconds since the epoch.
    pub open spec fn total_nanos(self) -> int {
        self.secs * 1_000_000_000 + self.nanos
    }

    /// Decides [`Timestamp::earlier`].
    pub fn is_earlier(&self, other: &Timestamp) -> (r: bool)
        ensures
            r == self.earlier(*other),
    {
        self.secs < other.secs || (self.secs == other.secs && self.nanos < other.nanos)
    }

    /// Whole seconds from `self` to `now`; none where `now` is not later.
    pub fn secs_until(&self, now: &Timestamp) -> (r: u64)
        ensures
            r == whole_secs(now.total_nanos() - self.total_nanos()),
    {
        let from: i128 = self.secs as i128 * 1_000_000_000 + self.nanos as i128;
        let to: i128 = now.secs as i128 * 1_000_000_000 + now.nanos as i128;
        if to <= from {
            0
        } else {
            let secs: i128 = (to - from) / 1_000_000_000;
            if secs > u64::MAX as i128 {
                u64::MAX
            } else {
                secs as u64
            }
        }
    }
}

/// The whole seconds in a span of nanoseconds, as far as 64 bits count them; none in one that
/// does not run forward.
pub open spec fn whole_secs(nanos: int) -> int {
    if nanos <= 0 {
        0
    } else if nanos / 1_000_000_000 > u64::MAX {
        u64::MAX as int
    } else {
        nanos / 1_000_000_000
    }
}

/// The present moment, from `chrono::Utc::now`: what the system's clock says, of which nothing is
/// claimed but that the nanoseconds stay within a second, or within two in a leap second.
#[verifier::external_body]
pub(crate) fn utc_now() -> (r: Timestamp)
    ensures
        r.nanos < 2_000_000_000,
{
    let now = chrono::Utc::now();
    Timestamp { secs: now.timestamp(), nanos: now.timestamp_subsec_nanos() }
}

/// An integer brought into the range of [`Millis`].
pub open spec fn clamped(x: int) -> Millis {
    if x > i64::MAX {
        i64::MAX
    } else if x < i64::MIN {
        i64::MIN
    } else {
        x as i64
    }
}

/// The sum of two lengths of time, at the bound where it would pass it.
pub fn add_millis(a: Millis, b: Millis) -> (r: Millis)
    ensures
        r == clamped(a + b),
{
    let x: i128 = a as i128 + b as i128;
    if x > i64::MAX as i128 {
        i64::MAX
    } else if x < i64::MIN as i128 {
        i64::MIN
    } else {
        x as i64
    }
}

/// The difference of two lengths of time, at the bound where it would pass it.
pub fn sub_millis(a: Millis, b: Millis) -> (r: Millis)
    ensures
        r == clamped(a - b),
{
    let x: i128 = a as i128 - b as i128;
    if x > i64::MAX as i128 {
        i64::MAX
    } else if x < i64::MIN as i128 {
        i64::MIN
    } else {
        x as i64
    }
}

/// A reading of two clocks at one moment: the wall clock, and milliseconds on a clock that never
/// runs back.
#[derive(Clone, Copy, Debug)]
pub struct Moment {
    pub wall: Timestamp,
    pub mono: u64,
}

/// Milliseconds on the monotonic clock since an earlier reading.
pub open spec fn elapsed(since: u64, now: u64) -> int {
    if now >= since {
        now - since
    } else {
        0
    }
}

/// Computes [`elapsed`].
pub fn elapsed_millis(since: u64, now: u64) -> (r: u64)
    ensures
        r == elapsed(since, now),
{
    if now >= since {
        now - since
    } else {
        0
    }
}

} // verus!
