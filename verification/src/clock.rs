//! Spans and moments as plain integers.
//!
//! A moment on the monotonic clock is a number of nanoseconds since an anchor
//! the program picks at start; a moment on the wall clock is a number of
//! nanoseconds since the Unix epoch.

use vstd::prelude::*;

verus! {

/// Nanoseconds in one second.
pub const NANOS_PER_SEC: u128 = 1_000_000_000;

/// Nanoseconds in one millisecond.
pub const NANOS_PER_MILLI: u128 = 1_000_000;

/// First wall-clock moment that can be represented: the start of year -9999.
pub const WALL_MIN: i128 = -377_705_116_800_000_000_000;

/// Last wall-clock moment that can be represented: the end of year 9999.
pub const WALL_MAX: i128 = 253_402_300_799_999_999_999;

/// A span of time.
#[derive(Clone, Copy, Debug, PartialEq, Eq, PartialOrd, Ord, Structural)]
pub struct Duration {
    pub nanos: u128,
}

/// A moment on the monotonic clock.
#[derive(Clone, Copy, Debug, PartialEq, Eq, PartialOrd, Ord, Structural)]
pub struct Instant {
    pub nanos: u128,
}

/// A moment on the wall clock.
#[derive(Clone, Copy, Debug, PartialEq, Eq, PartialOrd, Ord, Structural)]
pub struct WallTime {
    pub unix_nanos: i128,
}

/// The wall-clock moment `nanos` after `wall`, where the calendar reaches.
pub open spec fn wall_after(wall: int, nanos: nat) -> Option<int> {
    if WALL_MIN <= wall <= WALL_MAX && wall + nanos <= WALL_MAX {
        Some(wall + nanos)
    } else {
        None
    }
}

impl Duration {
    pub fn from_secs(secs: u64) -> (d: Self)
        ensures
            d.nanos == secs * NANOS_PER_SEC,
    {
        Duration { nanos: secs as u128 * NANOS_PER_SEC }
    }

    pub fn from_millis(millis: u64) -> (d: Self)
        ensures
            d.nanos == millis * NANOS_PER_MILLI,
    {
        Duration { nanos: millis as u128 * NANOS_PER_MILLI }
    }

    pub fn zero() -> (d: Self)
        ensures
            d.nanos == 0,
    {
        Duration { nanos: 0 }
    }

    pub fn is_zero(&self) -> (b: bool)
        ensures
            b == (self.nanos == 0),
    {
        self.nanos == 0
    }

    /// Whole milliseconds, cut off at what a `u64` holds.
    pub fn millis_saturating(&self) -> (ms: u64)
        ensures
            ms == self.spec_millis(),
    {
        let whole: u128 = self.nanos / NANOS_PER_MILLI;
        if whole > u64::MAX as u128 {
            u64::MAX
        } else {
            whole as u64
        }
    }

    pub open spec fn spec_millis(self) -> u64 {
        if self.nanos / NANOS_PER_MILLI > u64::MAX {
            u64::MAX
        } else {
            (self.nanos / NANOS_PER_MILLI) as u64
        }
    }

    pub fn saturating_sub(&self, other: Duration) -> (d: Self)
        ensures
            d.nanos == if self.nanos >= other.nanos {
                self.nanos - other.nanos
            } else {
                0
            },
    {
        if self.nanos >= other.nanos {
            Duration { nanos: self.nanos - other.nanos }
        } else {
            Duration { nanos: 0 }
        }
    }

    /// The shorter of two spans.
    pub fn shorter(&self, other: Duration) -> (d: Self)
        ensures
            d.nanos == if self.nanos <= other.nanos {
                self.nanos
            } else {
                other.nanos
            },
    {
        if self.nanos <= other.nanos {
            *self
        } else {
            other
        }
    }
}

impl Instant {
    pub open spec fn spec_checked_add(self, span: Duration) -> Option<Instant> {
        if self.nanos + span.nanos <= u128::MAX {
            Some(Instant { nanos: (self.nanos + span.nanos) as u128 })
        } else {
            None
        }
    }

    /// The moment `span` later, if it can be represented.
    pub fn checked_add(&self, span: Duration) -> (r: Option<Instant>)
        ensures
            r == self.spec_checked_add(span),
    {
        match self.nanos.checked_add(span.nanos) {
            Some(nanos) => Some(Instant { nanos }),
            None => None,
        }
    }

    pub open spec fn spec_since(self, earlier: Instant) -> Duration {
        if self.nanos >= earlier.nanos {
            Duration { nanos: (self.nanos - earlier.nanos) as u128 }
        } else {
            Duration { nanos: 0 }
        }
    }

    /// How long after `earlier` this moment lies, zero if it does not.
    pub fn saturating_duration_since(&self, earlier: Instant) -> (d: Duration)
        ensures
            d == self.spec_since(earlier),
    {
        if self.nanos >= earlier.nanos {
            Duration { nanos: self.nanos - earlier.nanos }
        } else {
            Duration { nanos: 0 }
        }
    }
}

/// `time::OffsetDateTime::checked_add`, on a moment given by its Unix
/// nanoseconds and a span converted to the signed `time::Duration`. A moment or
/// a sum outside years -9999 to 9999 gives nothing; otherwise the result lies
/// exactly the span after the moment.
#[verifier::external_body]
fn calendar_checked_add(wall: i128, secs: u64, subsec_nanos: u32) -> (r: Option<i128>)
    requires
        subsec_nanos < 1_000_000_000,
    ensures
        (match r {
            Some(at) => Some(at as int),
            None => None,
        }) == wall_after(wall as int, (secs * NANOS_PER_SEC + subsec_nanos) as nat),
{
    let delay = time::Duration::try_from(std::time::Duration::new(secs, subsec_nanos)).ok()?;
    let at = time::OffsetDateTime::from_unix_timestamp_nanos(wall).ok()?;
    at.checked_add(delay).map(|later| later.unix_timestamp_nanos())
}

impl WallTime {
    pub open spec fn spec_checked_add(self, span: Duration) -> Option<WallTime> {
        match wall_after(self.unix_nanos as int, span.nanos as nat) {
            Some(at) => Some(WallTime { unix_nanos: at as i128 }),
            None => None,
        }
    }

    /// The wall-clock moment `span` later, if the calendar reaches that far.
    pub fn checked_add(&self, span: Duration) -> (r: Option<WallTime>)
        ensures
            r == self.spec_checked_add(span),
    {
        let secs: u128 = span.nanos / NANOS_PER_SEC;
        let subsec: u128 = span.nanos % NANOS_PER_SEC;
        if secs > u64::MAX as u128 {
            return None;
        }
        match calendar_checked_add(self.unix_nanos, secs as u64, subsec as u32) {
            Some(unix_nanos) => Some(WallTime { unix_nanos }),
            None => None,
        }
    }
}

/// A duration holds the whole milliseconds that it is given as, the rest being
/// less than one, unless there are more of them than can be told.
pub proof fn milliseconds_are_whole(span: Duration)
    ensures
        span.spec_millis() * NANOS_PER_MILLI <= span.nanos,
        span.spec_millis() < u64::MAX ==> span.nanos < (span.spec_millis() + 1) * NANOS_PER_MILLI,
{
    assert(span.spec_millis() < u64::MAX ==> span.nanos < (span.spec_millis() + 1)
        * NANOS_PER_MILLI) by (nonlinear_arith)
        requires
            span.spec_millis() < u64::MAX ==> span.spec_millis() == span.nanos / NANOS_PER_MILLI,
    ;
    assert(span.spec_millis() * NANOS_PER_MILLI <= span.nanos) by (nonlinear_arith)
        requires
            span.spec_millis() <= span.nanos / NANOS_PER_MILLI,
    ;
}

/// The time between a moment and a later one is what was added to it, and there
/// is none back to an earlier one.
pub proof fn time_adds_up(at: Instant, span: Duration, other: Instant)
    ensures
        at.nanos + span.nanos <= u128::MAX ==> at.spec_checked_add(span) is Some
            && at.spec_checked_add(span)->0.nanos == at.nanos + span.nanos
            && at.spec_checked_add(span)->0.spec_since(at) == span,
        at.nanos + span.nanos > u128::MAX ==> at.spec_checked_add(span) is None,
        at.nanos <= other.nanos ==> at.spec_since(other).nanos == 0,
        at.nanos >= other.nanos ==> other.nanos + at.spec_since(other).nanos == at.nanos,
{
}

/// Wall time adds up within the calendar and ends at its edge.
pub proof fn wall_time_adds_up(at: WallTime, span: Duration)
    ensures
        WALL_MIN <= at.unix_nanos && at.unix_nanos + span.nanos <= WALL_MAX ==> at.spec_checked_add(
            span,
        ) is Some && at.spec_checked_add(span)->0.unix_nanos == at.unix_nanos + span.nanos,
        at.unix_nanos + span.nanos > WALL_MAX ==> at.spec_checked_add(span) is None,
        at.unix_nanos < WALL_MIN ==> at.spec_checked_add(span) is None,
{
}

} // verus!
