pub mod fake;

use vstd::prelude::*;

verus! {

/// A particular point in time, counted in whole nanoseconds from an
/// arbitrary origin. The scheduler works entirely on these plain values; a
/// clock source is responsible for producing them.
#[derive(Clone, Copy, Debug, PartialEq, Eq, Structural)]
pub struct TimePoint {
    /// Nanoseconds since the origin.
    pub nanos: u64,
}

impl TimePoint {
    /// The origin itself.
    pub fn zero() -> (r: TimePoint)
        ensures
            r.nanos == 0,
    {
        TimePoint { nanos: 0 }
    }
}

impl Default for TimePoint {
    fn default() -> (r: TimePoint)
        ensures
            r.nanos == 0,
    {
        TimePoint { nanos: 0 }
    }
}

/// A type that represents a particular point in time, with nanosecond
/// arithmetic. `moment` is its position on the mathematical time line.
pub trait TemporalSample: Sized + Clone {
    /// Where this sample lies, in nanoseconds from the origin.
    spec fn moment(&self) -> int;

    /// If this sample is at or after `origin`, the number of nanoseconds
    /// that have passed since that point; if it is before `origin`, `None`.
    fn time_since(&self, origin: &Self) -> (r: Option<u64>)
        ensures
            self.moment() < origin.moment() ==> r is None,
            self.moment() >= origin.moment() && self.moment() - origin.moment() <= u64::MAX
                ==> r == Some((self.moment() - origin.moment()) as u64),
    ;

    /// A new sample this many nanoseconds into the future.
    fn advanced_by(&self, amount: u64) -> (r: Self)
        requires
            self.moment() + amount <= u64::MAX,
        ensures
            r.moment() == self.moment() + amount,
    ;
}

impl TemporalSample for TimePoint {
    open spec fn moment(&self) -> int {
        self.nanos as int
    }

    fn time_since(&self, origin: &Self) -> (r: Option<u64>) {
        if self.nanos >= origin.nanos {
            Some(self.nanos - origin.nanos)
        } else {
            None
        }
    }

    fn advanced_by(&self, amount: u64) -> (r: Self) {
        TimePoint { nanos: self.nanos + amount }
    }
}

/// A source of time information for a metronome: something that can report
/// "now". Nothing is assumed of the values it returns; the scheduler handles
/// any sequence of them, including a clock that runs backwards.
pub trait NowSource: Sized {
    /// A point in time representing now.
    fn now(&mut self) -> TimePoint;
}

} // verus!
