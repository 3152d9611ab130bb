use crate::time::{NowSource, TimePoint};
use vstd::prelude::*;

verus! {

/// A fake `NowSource` that is entirely under the caller's control. It
/// reports whatever `now` currently holds, starting at the origin; move time
/// forward with [`FakeNowSource::advance`] or by setting the field directly.
/// Useful for rendering predetermined footage, and for tests.
#[derive(Clone, Copy, Debug, PartialEq, Eq, Structural)]
pub struct FakeNowSource {
    /// How long since an arbitrary origin. Manipulate this field directly to
    /// manipulate time itself.
    pub now: TimePoint,
}

impl FakeNowSource {
    /// Move this source's idea of now forward by `nanos` nanoseconds.
    pub fn advance(&mut self, nanos: u64)
        requires
            old(self).now.nanos + nanos <= u64::MAX,
        ensures
            final(self).now.nanos == old(self).now.nanos + nanos,
    {
        self.now = TimePoint { nanos: self.now.nanos + nanos };
    }
}

impl Default for FakeNowSource {
    fn default() -> (r: FakeNowSource)
        ensures
            r.now.nanos == 0,
    {
        FakeNowSource { now: TimePoint { nanos: 0 } }
    }
}

impl NowSource for FakeNowSource {
    fn now(&mut self) -> TimePoint {
        self.now
    }
}

} // verus!
