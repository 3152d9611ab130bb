use crate::time::{NowSource, TimePoint};
use vstd::prelude::*;

verus! {

#[verifier::external_type_specification]
#[verifier::external_body]
/// std's opaque monotonic instant, declared so values of it can be held.
pub struct ExInstant(std::time::Instant);

/// Relies on std::time::Instant::now: the current instant of the monotonic
/// clock. Nothing can be promised of a clock reading.
#[verifier::external_body]
fn instant_now() -> std::time::Instant {
    std::time::Instant::now()
}

/// Relies on std::time::Instant::saturating_duration_since: the time from
/// `earlier` to `self`, or zero when `self` is the earlier one. The result
/// is opaque here, so nothing further is stated.
pub assume_specification[ std::time::Instant::saturating_duration_since ](
    this: &std::time::Instant,
    earlier: std::time::Instant,
) -> core::time::Duration;

/// Relies on core::time::Duration::as_nanos: the whole number of
/// nanoseconds in the duration. Its argument is opaque here, so nothing
/// further is stated.
pub assume_specification[ core::time::Duration::as_nanos ](
    this: &core::time::Duration,
) -> u128;

/// A [`NowSource`] that uses the standard Rust timing facilities: it
/// reports monotonic nanoseconds elapsed since its construction. This is
/// the one you almost certainly want for realtime use; for non-realtime
/// applications (such as rendering predetermined footage), see
/// [`FakeNowSource`](crate::FakeNowSource).
#[derive(Clone, Copy, Debug)]
pub struct RealtimeNowSource {
    origin: std::time::Instant,
}

impl RealtimeNowSource {
    /// A realtime source whose origin is the moment of this call.
    pub fn new() -> RealtimeNowSource {
        RealtimeNowSource { origin: instant_now() }
    }
}

impl NowSource for RealtimeNowSource {
    fn now(&mut self) -> TimePoint {
        let elapsed = instant_now().saturating_duration_since(self.origin);
        let nanos = elapsed.as_nanos();
        if nanos > u64::MAX as u128 {
            TimePoint { nanos: u64::MAX }
        } else {
            TimePoint { nanos: nanos as u64 }
        }
    }
}

} // verus!
