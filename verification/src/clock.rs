//! Dates, instants and the readings of the system clocks.

use vstd::prelude::*;

verus! {

/// A calendar date: the number of days since 1 January 1970.
#[derive(Debug, Clone, Copy, PartialEq, Eq, Hash, Structural)]
pub struct Date {
    pub days: i32,
}

/// An instant: whole seconds since 1 January 1970, 00:00 UTC, and the
/// nanoseconds past that second.
#[derive(Debug, Clone, Copy, PartialEq, Eq, Hash, Structural)]
pub struct Timestamp {
    pub secs: i64,
    pub nanos: u32,
}

/// One reading of the wall clock: the instant, and the calendar date that the
/// local time zone gives it.
#[derive(Debug, Clone, Copy, PartialEq, Eq, Structural)]
pub struct Now {
    pub today: Date,
    pub at: Timestamp,
}

impl Date {
    /// Whether `self` is the day right before `next`.
    pub open spec fn precedes(self, next: Date) -> bool {
        self.days + 1 == next.days
    }

    /// Whether `self` is the day right before `next`.
    pub fn is_day_before(&self, next: &Date) -> (b: bool)
        ensures
            b == self.precedes(*next),
    {
        self.days < i32::MAX && self.days + 1 == next.days
    }
}

/// The monotonic clock's instant type; nothing of its inside is used.
#[verifier::external_type_specification]
#[verifier::external_body]
pub struct ExInstant(std::time::Instant);

/// `Instant::now`: the current reading of the monotonic clock. Nothing is
/// claimed of it.
pub assume_specification[ std::time::Instant::now ]() -> (t: std::time::Instant);

/// `Instant::elapsed`: the time that has passed since the instant was taken.
/// Nothing is claimed of it.
pub assume_specification[ std::time::Instant::elapsed ](t: &std::time::Instant) -> (d:
    core::time::Duration);

/// `Duration::as_secs`: the whole seconds in a duration. Nothing is claimed
/// of the number.
pub assume_specification[ core::time::Duration::as_secs ](d: &core::time::Duration) -> (s: u64);

/// Reads the wall clock through `chrono::Local::now`, and takes from the
/// `DateTime` its local date (`date_naive`, counted by `to_epoch_days`), its
/// Unix time (`timestamp`) and the nanoseconds of it
/// (`timestamp_subsec_nanos`). The reading depends on the moment and on the
/// machine's time zone, so nothing is claimed of it.
#[verifier::external_body]
pub(crate) fn read_clock() -> (now: Now) {
    let now = chrono::Local::now();
    Now {
        today: Date { days: now.date_naive().to_epoch_days() },
        at: Timestamp { secs: now.timestamp(), nanos: now.timestamp_subsec_nanos() },
    }
}

} // verus!
