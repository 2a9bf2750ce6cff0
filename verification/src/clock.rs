//! The clock of the switcher.

use std::time::{Duration, Instant};
use vstd::prelude::*;

verus! {

/// A moment on the machine's monotonic clock.
#[verifier::external_type_specification]
#[verifier::external_body]
pub struct ExInstant(Instant);

/// `Instant::now` reads the machine's clock: nothing is claimed of the moment.
pub assume_specification[ Instant::now ]() -> Instant
;

/// `Instant::elapsed` reads the machine's clock again: nothing is claimed of the
/// time that it finds to have passed.
pub assume_specification[ Instant::elapsed ](since: &Instant) -> Duration
;

/// `Duration::as_nanos` counts the nanoseconds of a span of time. The spans here
/// come from the clock, so nothing is claimed of the count.
pub assume_specification[ Duration::as_nanos ](span: &Duration) -> u128
;

/// Counts nanoseconds from the moment it was made.
#[derive(Debug)]
pub struct Clock {
    epoch: Instant,
}

impl Clock {
    /// The clock counts from a moment at which `Instant::now` read the machine's
    /// clock.
    pub closed spec fn started(self) -> bool {
        call_ensures(Instant::now, (), self.epoch)
    }

    /// The count is one that the clock can show: the nanoseconds of a span that
    /// `Instant::elapsed` may find to have passed since the start, as far as 64
    /// bits hold them.
    pub closed spec fn shows(self, count: u64) -> bool {
        exists|span: Duration, nanos: u128|
            {
                &&& call_ensures(Instant::elapsed, (&self.epoch,), span)
                &&& #[trigger] call_ensures(Duration::as_nanos, (&span,), nanos)
                &&& count == nanos as u64
            }
    }

    /// Starts counting.
    pub(crate) fn start() -> (clock: Clock)
        ensures
            clock.started(),
    {
        Clock { epoch: Instant::now() }
    }

    /// The nanoseconds that have passed since the start. Which of the counts that
    /// the clock can show comes back is left to the machine, so whoever asks is
    /// correct for all of them.
    pub(crate) fn nanos(&self) -> (count: u64)
        ensures
            self.shows(count),
    {
        let span = self.epoch.elapsed();
        let nanos: u128 = span.as_nanos();
        #[verifier::truncate]
        let count: u64 = nanos as u64;
        count
    }
}

} // verus!
