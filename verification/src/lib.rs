//! Fixed tickrate, variable framerate: a drift-free scheduler that turns a
//! monotonic clock into an exact stream of logic ticks interleaved with
//! render frames.
//!
//! Simulation logic runs at a fixed, exactly-reproducible rate, while frames
//! may be produced at any cadence. A [`Metronome`] holds the scheduler state;
//! each call to [`Metronome::sample`] (or [`Metronome::sample_at`]) yields a
//! [`MetronomeIterator`], a pull-based cursor whose readings tell the caller
//! to tick, render, idle, or recover from a temporal anomaly. Every pull
//! commits its effect to the scheduler state immediately, so a partially
//! drained cursor leaves the metronome valid and resumable.
//!
//! Timing uses integer nanoseconds plus a fractional residual counter, never
//! floating point, so repeated stepping accumulates no drift: after exactly
//! `numerator` ticks of a [`Rate`], the schedule has advanced by exactly
//! `denominator` seconds.

mod metronome;
mod rate;
mod realtime;
mod residual;
mod time;

pub use metronome::config_fits;
pub use metronome::Metronome;
pub use metronome::MetronomeIterator;
pub use metronome::Mode;
pub use metronome::Phase;
pub use metronome::Reading;
pub use rate::gcd;
pub use rate::Rate;
pub use realtime::RealtimeNowSource;
pub use residual::PreciseInstant;
pub use time::fake::FakeNowSource;
pub use time::NowSource;
pub use time::TemporalSample;
pub use time::TimePoint;
