use crate::rate::{rate_eq, rate_wf, Rate};
use crate::residual::{
    lemma_last_tick_at_target, model_last_tick_before, model_next, pi_loose, pi_wf, PiModel,
    PreciseInstant,
};
use crate::time::{NowSource, TemporalSample, TimePoint};
use vstd::prelude::*;

verus! {

/// The latest instant a sample may be taken at: about 253 years of
/// nanoseconds, leaving headroom below `u64::MAX` for catch-up stepping.
pub const NOW_LIMIT: u64 = 8_000_000_000_000_000_000;

/// One tick-bracket gap can never exceed this many nanoseconds: the largest
/// whole-nanosecond step of any rate, plus the carried nanosecond.
pub const TICK_GAP: u64 = 1_000_000_000_000_000_001;

/// Ceiling on the catch-up budget: `(max_ticks_behind + 3)` tick steps must
/// fit in this many nanoseconds, so that even a sample that ticks all the
/// way to its ceiling stays clear of `u64::MAX`.
pub const CATCHUP_HEADROOM: u64 = 8_000_000_000_000_000_000;

/// The catch-up configuration leaves enough arithmetic headroom: a full
/// ceiling's worth of tick steps fits under [`CATCHUP_HEADROOM`].
pub open spec fn cfg_ok(tickrate: Rate, max_ticks_behind: u32) -> bool {
    ((max_ticks_behind as int) + 3) * ((tickrate.duration_per as int) + 1) <= CATCHUP_HEADROOM as int
}

/// Whether a tickrate and catch-up ceiling leave the arithmetic headroom
/// that [`Metronome::new`] asks for. Callers outside verified code can
/// test the precondition with this before constructing.
pub fn config_fits(tickrate: &Rate, max_ticks_behind: u32) -> (r: bool)
    ensures
        r == cfg_ok(*tickrate, max_ticks_behind),
{
    proof {
        assert((max_ticks_behind as int + 3) * (tickrate.duration_per as int + 1)
            < 0x200_0000_0000_0000_0000_0000_0000) by (nonlinear_arith)
            requires
                0 <= max_ticks_behind < 0x1_0000_0000,
                0 <= tickrate.duration_per < 0x1_0000_0000_0000_0000,
        ;
    }
    (max_ticks_behind as u128 + 3) * (tickrate.duration_per as u128 + 1)
        <= CATCHUP_HEADROOM as u128
}

/// A frame's position within its enclosing tick interval, as the exact
/// ratio `numerator / denominator`, from 0 (at the earlier tick) to 1 (at
/// the later tick) inclusive.
#[derive(Clone, Copy, Debug, PartialEq, Eq, Structural)]
pub struct Phase {
    /// Nanoseconds from the earlier tick to the frame.
    pub numerator: u64,
    /// Nanoseconds from the earlier tick to the later one.
    pub denominator: u64,
}

/// Time handling information returned by a [`Metronome`].
#[derive(Clone, Copy, Debug, PartialEq, Eq, Structural)]
pub enum Reading {
    /// You should perform a logic tick.
    Tick,
    /// You should render a frame.
    Frame {
        /// Where in the current tick interval the frame lies, in the range
        /// 0 (previous tick) to 1 (current tick), inclusive.
        phase: Phase,
    },
    /// No `Tick` or `Frame` occurred this sample. If you wait this many
    /// nanoseconds and then sample again, you will have waited exactly long
    /// enough for the next `Tick` or `Frame` to appear.
    Idle {
        /// How many nanoseconds to wait before it will be time for another
        /// tick or frame.
        duration: u64,
    },
    /// The clock reported a timestamp strictly earlier than a previous
    /// timestamp: a temporal anomaly, handled by resetting the schedule.
    /// Anomalies of one tick or less of slip can go undetected.
    TimeWentBackwards,
    /// Time is passing more quickly than ticks can be processed: more than
    /// `max_ticks_behind` ticks' worth of time passed since the last
    /// completed batch. Excess lag is reported, never silently absorbed.
    TicksLost,
}

/// How ticks and frames should relate to one another in a given call to
/// [`Metronome::sample`].
#[derive(Clone, Copy, Debug)]
pub enum Mode {
    /// No rendering is happening. Good for dedicated servers, logic test
    /// suites, and other headless applications. Never yields `Frame`.
    TickOnly,
    /// Render exactly one frame per tick. Frame phase is always one.
    OneFramePerTick,
    /// Render as often as possible: one frame per sample, never `Idle`.
    UnlimitedFrames,
    /// Render at the given target framerate, stepped at its own fixed rate
    /// independent of the tickrate.
    TargetFramesPerSecond(Rate),
}

/// Whether this mode renders frames between tick boundaries, and so needs a
/// future tick to interpolate toward.
pub open spec fn spec_needs_a_future(mode: Mode) -> bool {
    match mode {
        Mode::UnlimitedFrames => true,
        Mode::TargetFramesPerSecond(_) => true,
        _ => false,
    }
}

/// A mode is well formed when any rate it carries is.
pub open spec fn mode_wf(mode: Mode) -> bool {
    match mode {
        Mode::TargetFramesPerSecond(r) => rate_wf(r),
        _ => true,
    }
}

impl Mode {
    /// Whether this mode renders frames between tick boundaries, and so
    /// needs a future tick to interpolate toward.
    pub fn needs_a_future(&self) -> (r: bool)
        ensures
            r == spec_needs_a_future(*self),
    {
        match self {
            Mode::UnlimitedFrames => true,
            Mode::TargetFramesPerSecond(_) => true,
            _ => false,
        }
    }
}

/// The persistent scheduler state: the two instants bracketing the current
/// tick interval, the last frame emitted, the active tick rate, the frame
/// rate of the previous sample, and the catch-up ceiling. Turns pure
/// temporal chaos into an orderly stream of ticks and frames.
#[derive(Clone, Debug)]
pub struct Metronome<N: NowSource> {
    /// The source of "now".
    pub now_source: N,
    /// The earlier end of the most recently completed tick interval.
    pub past_tick: Option<PreciseInstant>,
    /// The later end of the most recently completed tick interval.
    pub future_tick: Option<PreciseInstant>,
    /// The instant of the most recently emitted frame, used to prevent
    /// duplicate frames and to anchor fixed-rate frame stepping.
    pub last_frame: Option<PreciseInstant>,
    /// The current tick rate.
    pub tickrate: Rate,
    /// The frame-governing rate in effect during the previous sample.
    pub last_framerate: Option<Rate>,
    /// How many ticks one sample may emit before declaring lost ticks.
    pub max_ticks_behind: u32,
}

/// The mathematical image of a [`Metronome`], without its clock source.
pub ghost struct MetModel {
    pub past_tick: Option<PiModel>,
    pub future_tick: Option<PiModel>,
    pub last_frame: Option<PiModel>,
    pub tickrate: Rate,
    pub last_framerate: Option<Rate>,
    pub max_ticks_behind: u32,
}

/// The image of an optional instant.
pub open spec fn opt_pi(o: Option<PreciseInstant>) -> Option<PiModel> {
    match o {
        Some(p) => Some(p@),
        None => None,
    }
}

impl<N: NowSource> View for Metronome<N> {
    type V = MetModel;

    open spec fn view(&self) -> MetModel {
        MetModel {
            past_tick: opt_pi(self.past_tick),
            future_tick: opt_pi(self.future_tick),
            last_frame: opt_pi(self.last_frame),
            tickrate: self.tickrate,
            last_framerate: self.last_framerate,
            max_ticks_behind: self.max_ticks_behind,
        }
    }
}

/// Well-formed scheduler state: the rates are valid, the catch-up budget
/// leaves arithmetic headroom, the bracket is either absent or a pair of
/// tick-rate instants at most one tick step apart, and the last frame lies
/// within sampled time.
pub open spec fn met_wf(m: MetModel) -> bool {
    &&& rate_wf(m.tickrate)
    &&& cfg_ok(m.tickrate, m.max_ticks_behind)
    &&& (match m.last_framerate {
        Some(fr) => rate_wf(fr),
        None => true,
    })
    &&& (m.past_tick is Some <==> m.future_tick is Some)
    &&& (match m.past_tick {
        Some(p) => pi_wf(p, m.tickrate),
        None => true,
    })
    &&& (match m.future_tick {
        Some(f) => pi_wf(f, m.tickrate),
        None => true,
    })
    &&& (match (m.past_tick, m.future_tick) {
        (Some(p), Some(f)) => p.at <= f.at <= p.at + TICK_GAP,
        _ => true,
    })
    &&& (match m.last_frame {
        Some(lf) => pi_loose(lf) && lf.at <= NOW_LIMIT,
        None => true,
    })
}

/// The frame-governing rate for a mode: none for `TickOnly`, the tickrate
/// for `OneFramePerTick`, none for `UnlimitedFrames` (tracked ad hoc), and
/// the target rate itself for `TargetFramesPerSecond`.
pub open spec fn model_frame_rate(mode: Mode, tickrate: Rate) -> Option<Rate> {
    match mode {
        Mode::TickOnly => None,
        Mode::OneFramePerTick => Some(tickrate),
        Mode::UnlimitedFrames => None,
        Mode::TargetFramesPerSecond(r) => Some(r),
    }
}

/// Whether two optional rates agree as ratios.
pub open spec fn opt_rate_eq(a: Option<Rate>, b: Option<Rate>) -> bool {
    match (a, b) {
        (None, None) => true,
        (Some(x), Some(y)) => rate_eq(x, y),
        _ => false,
    }
}

/// Per-sample setup: if the frame-governing rate differs from the one in
/// effect last sample, the frame anchor is discarded (a rate change
/// invalidates frame-residual continuity) and the new rate recorded.
pub open spec fn model_setup(m: MetModel, mode: Mode) -> MetModel {
    let nf = model_frame_rate(mode, m.tickrate);
    if !opt_rate_eq(nf, m.last_framerate) {
        MetModel { last_framerate: nf, last_frame: None, ..m }
    } else {
        m
    }
}

/// Whether `now` lies strictly before the tracked past tick: a temporal
/// regression. A regression of at most one tick interval that does not
/// cross the tracked boundary goes undetected.
pub open spec fn model_regressed(m: MetModel, now: int) -> bool {
    match m.past_tick {
        Some(p) => now < p.at,
        None => false,
    }
}

/// On regression all bracket state is discarded; the sample proceeds as
/// though starting fresh with `now` as a new implicit epoch.
pub open spec fn model_after_regression(m: MetModel, now: int) -> MetModel {
    if model_regressed(m, now) {
        MetModel { past_tick: None, future_tick: None, last_frame: None, ..m }
    } else {
        m
    }
}

/// The next candidate tick boundary: one step past the tracked future tick,
/// or `now` itself when no bracket exists yet (bootstrap).
pub open spec fn model_tick_candidate(m: MetModel, now: int) -> PiModel {
    match m.future_tick {
        Some(ft) => model_next(ft, m.tickrate),
        None => PiModel { at: now, residual: 0 },
    }
}

/// The candidate frame instant for this mode, before filtering: none for
/// `TickOnly`; the latest tick boundary at or before `now` for
/// `OneFramePerTick`; `now` itself for `UnlimitedFrames`; for
/// `TargetFramesPerSecond`, the next frame-rate step after the last frame,
/// or the latest tick boundary when no frame has been emitted yet.
pub open spec fn model_frame_candidate(m: MetModel, mode: Mode, now: int, tick0: PiModel) -> Option<
    PiModel,
> {
    match mode {
        Mode::TickOnly => None,
        Mode::OneFramePerTick => Some(model_last_tick_before(tick0, now, m.tickrate)),
        Mode::UnlimitedFrames => Some(PiModel { at: now, residual: 0 }),
        Mode::TargetFramesPerSecond(rate) => match m.last_frame {
            Some(lf) => Some(model_last_tick_before(lf, now, rate)),
            None => Some(model_last_tick_before(tick0, now, m.tickrate)),
        },
    }
}

/// Discard a candidate frame that lies in the future, or that would repeat
/// the last emitted frame's instant.
pub open spec fn model_frame_filter(m: MetModel, now: int, fc: Option<PiModel>) -> Option<PiModel> {
    match fc {
        None => None,
        Some(f) => if f.at > now {
            None
        } else {
            match m.last_frame {
                Some(lf) => if lf.at == f.at {
                    None
                } else {
                    Some(f)
                },
                None => Some(f),
            }
        },
    }
}

/// The idle duration before filtering: time until the next tick boundary
/// for the tick-paced modes; for `TargetFramesPerSecond`, time until the
/// nearer of the next tick boundary and the next frame boundary;
/// `UnlimitedFrames` never idles. `None` marks "a boundary is already due".
pub open spec fn model_idle_raw(
    m: MetModel,
    mode: Mode,
    now: int,
    tick0: PiModel,
    frame: Option<PiModel>,
) -> Option<int> {
    match mode {
        Mode::TickOnly => if tick0.at >= now {
            Some(tick0.at - now)
        } else {
            None
        },
        Mode::OneFramePerTick => if tick0.at >= now {
            Some(tick0.at - now)
        } else {
            None
        },
        Mode::UnlimitedFrames => None,
        Mode::TargetFramesPerSecond(rate) => {
            let a = if tick0.at >= now {
                Some(tick0.at - now)
            } else {
                None
            };
            let b_at = match frame {
                Some(f) => Some(f.at),
                None => match m.last_frame {
                    Some(lf) => Some(model_next(lf, rate).at),
                    None => None,
                },
            };
            match b_at {
                Some(bat) => {
                    let b = if bat >= now {
                        Some(bat - now)
                    } else {
                        None
                    };
                    match (a, b) {
                        (Some(x), Some(y)) => Some(
                            if x < y {
                                x
                            } else {
                                y
                            },
                        ),
                        _ => None,
                    }
                },
                None => a,
            }
        },
    }
}

/// A computed idle of exactly zero is treated as "not idle".
pub open spec fn model_idle_filter(idle: Option<int>) -> Option<int> {
    match idle {
        Some(d) => if d == 0 {
            None
        } else {
            Some(d)
        },
        None => None,
    }
}

/// A lazily-evaluated pass over one sampled instant. Each pull computes one
/// [`Reading`] and commits its effect to the scheduler state immediately, so
/// a cursor abandoned part way leaves the metronome valid and resumable,
/// reflecting only the readings actually consumed.
pub struct MetronomeIterator<N: NowSource> {
    /// The scheduler state, owned for the duration of the pass; take it
    /// back with [`MetronomeIterator::into_metronome`].
    pub metronome: Metronome<N>,
    /// The instant this sample was taken at.
    pub now: TimePoint,
    /// The mode this sample runs under.
    pub mode: Mode,
    /// The pending candidate tick boundary, if ticking may continue.
    pub tick: Option<PreciseInstant>,
    /// The pending frame instant, if one survives for this sample.
    pub frame: Option<PreciseInstant>,
    /// The pending idle duration in nanoseconds, if nothing else is due.
    pub idle_for: Option<u64>,
    /// Whether a temporal regression is still to be reported.
    pub time_went_backwards: bool,
    /// How many ticks this pass has emitted so far.
    pub ticks_given: u32,
}

/// The mathematical image of a [`MetronomeIterator`].
pub ghost struct IterModel {
    pub met: MetModel,
    pub now: int,
    pub mode: Mode,
    pub tick: Option<PiModel>,
    pub frame: Option<PiModel>,
    pub idle_for: Option<int>,
    pub time_went_backwards: bool,
    pub ticks_given: int,
}

impl<N: NowSource> View for MetronomeIterator<N> {
    type V = IterModel;

    open spec fn view(&self) -> IterModel {
        IterModel {
            met: self.metronome@,
            now: self.now.nanos as int,
            mode: self.mode,
            tick: opt_pi(self.tick),
            frame: opt_pi(self.frame),
            idle_for: match self.idle_for {
                Some(d) => Some(d as int),
                None => None,
            },
            time_went_backwards: self.time_went_backwards,
            ticks_given: self.ticks_given as int,
        }
    }
}

/// Everything one scheduling pass decides, computed from the state, the
/// mode and the sampled instant alone.
pub open spec fn model_new(m: MetModel, mode: Mode, now: int) -> IterModel {
    let twb = model_regressed(m, now);
    let m1 = model_after_regression(m, now);
    let tick0 = model_tick_candidate(m1, now);
    let fc = model_frame_candidate(m1, mode, now, tick0);
    let frame = model_frame_filter(m1, now, fc);
    let idle_for = model_idle_filter(model_idle_raw(m1, mode, now, tick0, frame));
    let want_future = frame is Some && spec_needs_a_future(mode);
    let tick = if want_future || tick0.at <= now {
        Some(tick0)
    } else {
        None
    };
    IterModel {
        met: m1,
        now,
        mode,
        tick,
        frame,
        idle_for,
        time_went_backwards: twb,
        ticks_given: 0,
    }
}

/// One full sampling pass: per-sample setup, then the pass itself.
pub open spec fn model_sample(m: MetModel, mode: Mode, now: int) -> IterModel {
    model_new(model_setup(m, mode), mode, now)
}

/// The highest nanosecond position a pending tick candidate can hold, given
/// how many ticks this pass has already emitted.
pub open spec fn tick_cand_limit(it: IterModel) -> int {
    it.now + 2 * (TICK_GAP as int) + (it.ticks_given + 1) * ((it.met.tickrate.duration_per as int)
        + 1)
}

/// Well-formed pass state: the scheduler state is well formed, the sampled
/// instant and tick budget are in range, every pending candidate is a valid
/// instant within its arithmetic bounds, the pending frame never repeats
/// the last one, the pending tick follows the tracked future tick, and the
/// mode's exclusions hold (`TickOnly` has no frame, `UnlimitedFrames` no
/// idle).
pub open spec fn it_wf(it: IterModel) -> bool {
    &&& met_wf(it.met)
    &&& 0 <= it.now <= NOW_LIMIT
    &&& 0 <= it.ticks_given <= it.met.max_ticks_behind
    &&& (match it.tick {
        Some(t) => pi_wf(t, it.met.tickrate) && t.at <= tick_cand_limit(it),
        None => true,
    })
    &&& (match (it.tick, it.met.future_tick) {
        (Some(t), Some(f)) => f.at <= t.at <= f.at + (it.met.tickrate.duration_per as int) + 1,
        _ => true,
    })
    &&& (match it.frame {
        Some(f) => pi_loose(f) && f.at <= it.now && (match it.met.last_frame {
            Some(lf) => lf.at != f.at,
            None => true,
        }),
        None => true,
    })
    &&& (it.mode matches Mode::TickOnly ==> it.frame is None)
    &&& (it.mode matches Mode::UnlimitedFrames ==> it.idle_for is None)
    &&& (match it.idle_for {
        Some(d) => 0 < d <= u64::MAX,
        None => true,
    })
}

/// Whether the pending frame falls inside the tracked tick bracket, so
/// that rendering (not ticking) is the next thing to do. With no pending
/// tick, a surviving frame always renders.
pub open spec fn model_should_render(it: IterModel) -> bool {
    match (it.tick, it.frame) {
        (Some(_), Some(f)) => match (it.met.past_tick, it.met.future_tick) {
            (Some(p), Some(fu)) => f.at >= p.at && f.at <= fu.at,
            _ => false,
        },
        (None, Some(_)) => true,
        _ => false,
    }
}

/// Whether the pending tick boundary should be consumed now: it has been
/// reached, or a frame is still contending and the bracket must advance to
/// meet it.
pub open spec fn model_tick_due(it: IterModel) -> bool {
    match it.tick {
        Some(t) => t.at <= it.now || it.frame is Some,
        None => false,
    }
}

/// The phase of a frame at `f`: always one for `OneFramePerTick`;
/// otherwise the linear interpolation of `f` between the bracket's ends,
/// clamped to [0, 1], defaulting to one when no proper bracket exists.
pub open spec fn model_phase(it: IterModel, f: PiModel) -> Phase {
    match it.mode {
        Mode::TickOnly => Phase { numerator: 1, denominator: 1 },
        Mode::OneFramePerTick => Phase { numerator: 1, denominator: 1 },
        _ => match (it.met.past_tick, it.met.future_tick) {
            (Some(p), Some(fu)) => if p.at != fu.at {
                if f.at < p.at {
                    Phase { numerator: 0, denominator: 1 }
                } else if f.at > fu.at {
                    Phase { numerator: 1, denominator: 1 }
                } else {
                    Phase { numerator: (f.at - p.at) as u64, denominator: (fu.at - p.at) as u64 }
                }
            } else {
                Phase { numerator: 1, denominator: 1 }
            },
            _ => Phase { numerator: 1, denominator: 1 },
        },
    }
}

/// One pull of the pass: the reading produced (`None` when the pass is
/// over) and the state left behind. A regression is reported first; then
/// ticks are consumed while due, capped by the catch-up ceiling, whose
/// breach discards the bracket and reports `TicksLost`; then the surviving
/// frame, recorded to prevent a duplicate; then the idle, once; then
/// nothing.
pub open spec fn model_step(it: IterModel) -> (Option<Reading>, IterModel) {
    if it.time_went_backwards {
        (Some(Reading::TimeWentBackwards), IterModel { time_went_backwards: false, ..it })
    } else if !model_should_render(it) && model_tick_due(it) {
        match it.tick {
            Some(t) => if it.ticks_given >= it.met.max_ticks_behind {
                (
                    Some(Reading::TicksLost),
                    IterModel {
                        met: MetModel {
                            past_tick: None,
                            future_tick: None,
                            last_frame: None,
                            ..it.met
                        },
                        tick: None,
                        ..it
                    },
                )
            } else {
                (
                    Some(Reading::Tick),
                    IterModel {
                        met: MetModel {
                            past_tick: match it.met.future_tick {
                                Some(f) => Some(f),
                                None => Some(t),
                            },
                            future_tick: Some(t),
                            ..it.met
                        },
                        tick: Some(model_next(t, it.met.tickrate)),
                        ticks_given: it.ticks_given + 1,
                        ..it
                    },
                )
            },
            None => (None, it),
        }
    } else {
        match it.frame {
            Some(f) => (
                Some(Reading::Frame { phase: model_phase(it, f) }),
                IterModel {
                    met: MetModel { last_frame: Some(f), ..it.met },
                    tick: None,
                    frame: None,
                    ..it
                },
            ),
            None => match it.idle_for {
                Some(d) => (
                    Some(Reading::Idle { duration: d as u64 }),
                    IterModel { tick: None, idle_for: None, ..it },
                ),
                None => (None, IterModel { tick: None, ..it }),
            },
        }
    }
}

/// While the catch-up ceiling has room, the pending tick candidate sits
/// far enough below `u64::MAX` to take one more step.
proof fn lemma_tick_step_headroom(it: IterModel)
    requires
        it_wf(it),
        it.tick is Some,
        it.ticks_given < it.met.max_ticks_behind,
    ensures
        (match it.tick {
            Some(t) => t.at + (it.met.tickrate.duration_per as int) + 1 <= u64::MAX - 400_000_000_000_000_000,
            None => false,
        }),
        tick_cand_limit(it) + (it.met.tickrate.duration_per as int) + 1 <= tick_cand_limit(
            IterModel { ticks_given: it.ticks_given + 1, ..it },
        ),
{
    let d1 = (it.met.tickrate.duration_per as int) + 1;
    let tg = it.ticks_given;
    let mx = it.met.max_ticks_behind as int;
    assert((tg + 1) * d1 + d1 == (tg + 2) * d1) by (nonlinear_arith);
    assert((tg + 2) * d1 <= (mx + 3) * d1) by (nonlinear_arith)
        requires
            tg + 2 <= mx + 3,
            d1 >= 1,
    ;
}

impl<N: NowSource> Metronome<N> {
    /// Create a new `Metronome` with the given properties.
    /// - `now_source`: where "now" comes from.
    /// - `tickrate`: the target rate of ticks per second.
    /// - `max_ticks_behind`: how many ticks one sample may fall behind
    ///   before ticks are dropped; zero drops to one tick immediately on
    ///   any lag. Low values suit realtime play; large ones make the
    ///   schedule try harder to catch up.
    pub fn new(now_source: N, tickrate: Rate, max_ticks_behind: u32) -> (r: Metronome<N>)
        requires
            rate_wf(tickrate),
            cfg_ok(tickrate, max_ticks_behind),
        ensures
            r@ == (MetModel {
                past_tick: None,
                future_tick: None,
                last_frame: None,
                tickrate,
                last_framerate: None,
                max_ticks_behind,
            }),
            met_wf(r@),
    {
        Metronome {
            now_source,
            past_tick: None,
            future_tick: None,
            last_frame: None,
            tickrate,
            last_framerate: None,
            max_ticks_behind,
        }
    }

    /// Take one scheduling pass at the clock's idea of now. Reads the clock
    /// exactly once; every reading of the returned cursor is computed
    /// against that single instant. Equivalent to [`Metronome::sample_at`]
    /// at whatever the clock returned (clamped to [`NOW_LIMIT`]).
    pub fn sample(self, mode: Mode) -> (it: MetronomeIterator<N>)
        requires
            met_wf(self@),
            mode_wf(mode),
        ensures
            exists|n: int| 0 <= n <= NOW_LIMIT && it@ == model_sample(self@, mode, n),
            it_wf(it@),
    {
        let mut m = self;
        let sampled = m.now_source.now();
        let now = if sampled.nanos > NOW_LIMIT {
            TimePoint { nanos: NOW_LIMIT }
        } else {
            sampled
        };
        let it = m.sample_at(mode, now);
        proof {
            assert(0 <= now.nanos as int <= NOW_LIMIT && it@ == model_sample(
                self@,
                mode,
                now.nanos as int,
            ));
        }
        it
    }

    /// Take one scheduling pass at the given instant. The caller reads the
    /// clock; everything the pass decides is a function of the state, the
    /// mode and this instant alone.
    pub fn sample_at(self, mode: Mode, now: TimePoint) -> (it: MetronomeIterator<N>)
        requires
            met_wf(self@),
            mode_wf(mode),
            now.nanos <= NOW_LIMIT,
        ensures
            it@ == model_sample(self@, mode, now.nanos as int),
            it_wf(it@),
    {
        let mut m = self;
        let new_framerate = match mode {
            Mode::TickOnly => None,
            Mode::OneFramePerTick => Some(m.tickrate),
            Mode::UnlimitedFrames => None,
            Mode::TargetFramesPerSecond(rate) => Some(rate),
        };
        let differs = match (&new_framerate, &m.last_framerate) {
            (None, None) => false,
            (Some(a), Some(b)) => !(a.numerator == b.numerator && a.denominator
                == b.denominator),
            _ => true,
        };
        if differs {
            m.last_framerate = new_framerate;
            m.last_frame = None;
        }
        MetronomeIterator::new(m, mode, now)
    }

    /// Dynamically change the tickrate. Takes effect from the next sample;
    /// if a cursor from an earlier sample is still being drained, stop
    /// consuming it and resample, because its pending boundary was computed
    /// under the old rate. The bracket instants' residuals are forgotten:
    /// their fractional carry is meaningless under the new rate, costing at
    /// most one nanosecond of one-time error per change.
    pub fn set_tickrate(&mut self, new_rate: Rate)
        requires
            met_wf(old(self)@),
            rate_wf(new_rate),
            cfg_ok(new_rate, old(self)@.max_ticks_behind),
        ensures
            final(self)@ == (if rate_eq(old(self)@.tickrate, new_rate) {
                old(self)@
            } else {
                MetModel {
                    tickrate: new_rate,
                    past_tick: match old(self)@.past_tick {
                        Some(p) => Some(PiModel { at: p.at, residual: 0 }),
                        None => None,
                    },
                    future_tick: match old(self)@.future_tick {
                        Some(f) => Some(PiModel { at: f.at, residual: 0 }),
                        None => None,
                    },
                    ..old(self)@
                }
            }),
            met_wf(final(self)@),
    {
        if !(self.tickrate.numerator == new_rate.numerator && self.tickrate.denominator
            == new_rate.denominator) {
            self.tickrate = new_rate;
            match &mut self.past_tick {
                Some(past_tick) => past_tick.forget_residual(),
                None => (),
            }
            match &mut self.future_tick {
                Some(future_tick) => future_tick.forget_residual(),
                None => (),
            }
        }
    }
}

impl<N: NowSource> MetronomeIterator<N> {
    /// Begin one scheduling pass: detect regression, compute the candidate
    /// tick boundary, the candidate frame instant, and the idle duration,
    /// all from the state, the mode and the sampled instant.
    pub fn new(metronome: Metronome<N>, mode: Mode, now: TimePoint) -> (it: MetronomeIterator<N>)
        requires
            met_wf(metronome@),
            mode_wf(mode),
            now.nanos <= NOW_LIMIT,
        ensures
            it@ == model_new(metronome@, mode, now.nanos as int),
            it_wf(it@),
    {
        proof {
            crate::rate::lemma_rate_bounds(metronome@.tickrate);
        }
        let mut m = metronome;
        let mut time_went_backwards = false;
        let regress = match &m.past_tick {
            Some(past_tick) => now.nanos < past_tick.at.nanos,
            None => false,
        };
        if regress {
            time_went_backwards = true;
            m.past_tick = None;
            m.future_tick = None;
            m.last_frame = None;
        }
        let tick0 = match &m.future_tick {
            Some(future_tick) => future_tick.next(&m.tickrate),
            None => PreciseInstant::from(now),
        };
        let frame = match mode {
            Mode::TickOnly => None,
            Mode::OneFramePerTick => Some(tick0.last_tick_before(&now, &m.tickrate)),
            Mode::UnlimitedFrames => Some(PreciseInstant::from(now)),
            Mode::TargetFramesPerSecond(rate) => {
                proof {
                    crate::rate::lemma_rate_bounds(rate);
                }
                match &m.last_frame {
                    Some(lf) => Some(lf.last_tick_before(&now, &rate)),
                    None => Some(tick0.last_tick_before(&now, &m.tickrate)),
                }
            },
        };
        let frame = match frame {
            None => None,
            Some(f) => {
                if f.at.nanos > now.nanos {
                    None
                } else {
                    match &m.last_frame {
                        Some(lf) => if lf.at.nanos == f.at.nanos {
                            None
                        } else {
                            Some(f)
                        },
                        None => Some(f),
                    }
                }
            },
        };
        let idle_for: Option<u64> = match mode {
            Mode::TickOnly => tick0.at.time_since(&now),
            Mode::OneFramePerTick => tick0.at.time_since(&now),
            Mode::UnlimitedFrames => None,
            Mode::TargetFramesPerSecond(rate) => {
                proof {
                    crate::rate::lemma_rate_bounds(rate);
                }
                let a = tick0.at.time_since(&now);
                let b_at = match &frame {
                    Some(f) => Some(f.at),
                    None => match &m.last_frame {
                        Some(lf) => Some(lf.next(&rate).at),
                        None => None,
                    },
                };
                match b_at {
                    Some(bat) => match (a, bat.time_since(&now)) {
                        (Some(x), Some(y)) => Some(
                            if x < y {
                                x
                            } else {
                                y
                            },
                        ),
                        _ => None,
                    },
                    None => a,
                }
            },
        };
        let idle_for = match idle_for {
            None => None,
            Some(d) => if d == 0 {
                None
            } else {
                Some(d)
            },
        };
        let want_future = if frame.is_some() {
            mode.needs_a_future()
        } else {
            false
        };
        let tick = if want_future || tick0.at.nanos <= now.nanos {
            Some(tick0)
        } else {
            None
        };
        MetronomeIterator {
            idle_for,
            frame,
            tick,
            metronome: m,
            now,
            time_went_backwards,
            mode,
            ticks_given: 0,
        }
    }

    /// Produce the next reading of this pass, or `None` when the pass is
    /// over, committing the reading's effect to the scheduler state at
    /// once. Ticks come first, bounded by the catch-up ceiling and closed
    /// by `TicksLost` when it is reached; then at most one frame; then at
    /// most one idle; a regression is reported before anything else.
    pub fn next_reading(&mut self) -> (r: Option<Reading>)
        requires
            it_wf(old(self)@),
        ensures
            r == model_step(old(self)@).0,
            final(self)@ == model_step(old(self)@).1,
            it_wf(final(self)@),
            old(self)@.mode matches Mode::TickOnly ==> !(r matches Some(Reading::Frame { .. })),
            old(self)@.mode matches Mode::UnlimitedFrames ==> !(r matches Some(
            Reading::Idle { .. })),
            (match r {
                Some(Reading::Frame { phase }) => phase.denominator >= 1 && phase.numerator
                    <= phase.denominator,
                _ => true,
            }),
            r == Some(Reading::Tick) ==> old(self)@.ticks_given < old(self)@.met.max_ticks_behind
                && final(self)@.ticks_given == old(self)@.ticks_given + 1,
            r matches Some(Reading::Frame { .. }) ==> ({
                &&& old(self)@.frame is Some
                &&& final(self)@.met.last_frame == old(self)@.frame
                &&& (match (old(self)@.met.last_frame, old(self)@.frame) {
                    (Some(lf), Some(f)) => lf.at != f.at,
                    _ => true,
                })
            }),
    {
        proof {
            crate::rate::lemma_rate_bounds(old(self)@.met.tickrate);
        }
        if self.time_went_backwards {
            self.time_went_backwards = false;
            return Some(Reading::TimeWentBackwards);
        }
        let should_render_now = match (self.tick, self.frame) {
            (Some(_), Some(f)) => match (self.metronome.past_tick, self.metronome.future_tick) {
                (Some(p), Some(fu)) => f.at.nanos >= p.at.nanos && f.at.nanos <= fu.at.nanos,
                _ => false,
            },
            (None, Some(_)) => true,
            _ => false,
        };
        if !should_render_now {
            match self.tick {
                Some(t) => {
                    if t.at.nanos <= self.now.nanos || self.frame.is_some() {
                        if self.ticks_given >= self.metronome.max_ticks_behind {
                            // Enough ticks have been delivered: discard the
                            // bracket and complain.
                            self.metronome.past_tick = None;
                            self.metronome.future_tick = None;
                            self.metronome.last_frame = None;
                            self.tick = None;
                            return Some(Reading::TicksLost);
                        }
                        proof {
                            lemma_tick_step_headroom(old(self)@);
                        }
                        self.metronome.past_tick = match self.metronome.future_tick {
                            Some(f) => Some(f),
                            None => Some(t),
                        };
                        self.metronome.future_tick = Some(t);
                        self.tick = Some(t.next(&self.metronome.tickrate));
                        self.ticks_given = self.ticks_given + 1;
                        return Some(Reading::Tick);
                    } else {
                        self.tick = None;
                    }
                },
                None => (),
            }
        }
        // No tick was taken; perhaps because a frame is due instead.
        match self.frame {
            Some(f) => {
                let phase = match self.mode {
                    Mode::TickOnly => Phase { numerator: 1, denominator: 1 },
                    Mode::OneFramePerTick => Phase { numerator: 1, denominator: 1 },
                    Mode::UnlimitedFrames | Mode::TargetFramesPerSecond(_) => match (
                    self.metronome.past_tick, self.metronome.future_tick) {
                        (Some(p), Some(fu)) => {
                            if p.at.nanos != fu.at.nanos {
                                if f.at.nanos < p.at.nanos {
                                    Phase { numerator: 0, denominator: 1 }
                                } else if f.at.nanos > fu.at.nanos {
                                    Phase { numerator: 1, denominator: 1 }
                                } else {
                                    Phase {
                                        numerator: f.at.nanos - p.at.nanos,
                                        denominator: fu.at.nanos - p.at.nanos,
                                    }
                                }
                            } else {
                                Phase { numerator: 1, denominator: 1 }
                            }
                        },
                        _ => Phase { numerator: 1, denominator: 1 },
                    },
                };
                self.metronome.last_frame = Some(f);
                // After rendering, do not tick again this pass.
                self.tick = None;
                self.frame = None;
                return Some(Reading::Frame { phase });
            },
            None => (),
        }
        match self.idle_for {
            Some(d) => {
                self.idle_for = None;
                return Some(Reading::Idle { duration: d });
            },
            None => (),
        }
        None
    }

    /// Give the scheduler state back, however much of the pass was
    /// consumed. Every pull already committed its effect, so the state
    /// reflects exactly the readings taken.
    pub fn into_metronome(self) -> (m: Metronome<N>)
        requires
            it_wf(self@),
        ensures
            m@ == self@.met,
            met_wf(m@),
    {
        self.metronome
    }
}

/// One pull preserves well-formed pass state, never changes the mode, the
/// sampled instant, the tickrate or the catch-up ceiling, and counts ticks
/// one at a time, only while the ceiling has room.
pub proof fn lemma_step_wf(it: IterModel)
    requires
        it_wf(it),
    ensures
        it_wf(model_step(it).1),
        model_step(it).1.mode == it.mode,
        model_step(it).1.now == it.now,
        model_step(it).1.met.max_ticks_behind == it.met.max_ticks_behind,
        model_step(it).1.met.tickrate == it.met.tickrate,
        model_step(it).0 == Some(Reading::Tick) ==> model_step(it).1.ticks_given
            == it.ticks_given + 1 && it.ticks_given < it.met.max_ticks_behind,
        model_step(it).0 != Some(Reading::Tick) ==> model_step(it).1.ticks_given
            == it.ticks_given,
{
    crate::rate::lemma_rate_bounds(it.met.tickrate);
    if !it.time_went_backwards && !model_should_render(it) && model_tick_due(it) {
        match it.tick {
            Some(t) => {
                if it.ticks_given < it.met.max_ticks_behind {
                    lemma_tick_step_headroom(it);
                }
            },
            None => (),
        }
    }
}

/// How many `Tick` readings the pass yields over its first `k` pulls.
pub open spec fn ticks_in_run(it: IterModel, k: nat) -> int
    decreases k,
{
    if k == 0 {
        0
    } else {
        match model_step(it).0 {
            None => 0,
            Some(rd) => (if rd == Reading::Tick {
                1int
            } else {
                0int
            }) + ticks_in_run(model_step(it).1, (k - 1) as nat),
        }
    }
}

/// How many `Frame` readings the pass yields over its first `k` pulls.
pub open spec fn frames_in_run(it: IterModel, k: nat) -> int
    decreases k,
{
    if k == 0 {
        0
    } else {
        match model_step(it).0 {
            None => 0,
            Some(rd) => (if rd matches Reading::Frame { .. } {
                1int
            } else {
                0int
            }) + frames_in_run(model_step(it).1, (k - 1) as nat),
        }
    }
}

/// No `Frame` reading appears among the first `k` pulls.
pub open spec fn run_frame_free(it: IterModel, k: nat) -> bool
    decreases k,
{
    if k == 0 {
        true
    } else {
        match model_step(it).0 {
            None => true,
            Some(rd) => !(rd matches Reading::Frame { .. }) && run_frame_free(
                model_step(it).1,
                (k - 1) as nat,
            ),
        }
    }
}

/// No `Idle` reading appears among the first `k` pulls.
pub open spec fn run_idle_free(it: IterModel, k: nat) -> bool
    decreases k,
{
    if k == 0 {
        true
    } else {
        match model_step(it).0 {
            None => true,
            Some(rd) => !(rd matches Reading::Idle { .. }) && run_idle_free(
                model_step(it).1,
                (k - 1) as nat,
            ),
        }
    }
}

/// Every `Frame` reading among the first `k` pulls carries a phase between
/// zero and one inclusive.
pub open spec fn run_phases_bounded(it: IterModel, k: nat) -> bool
    decreases k,
{
    if k == 0 {
        true
    } else {
        match model_step(it).0 {
            None => true,
            Some(rd) => (match rd {
                Reading::Frame { phase } => phase.denominator >= 1 && phase.numerator
                    <= phase.denominator,
                _ => true,
            }) && run_phases_bounded(model_step(it).1, (k - 1) as nat),
        }
    }
}

/// Catch-up bound: however many readings are pulled, one pass never yields
/// more than `max_ticks_behind` ticks (less any it has already yielded).
/// Lag beyond the ceiling is reported as `TicksLost`, never absorbed by
/// unbounded ticking.
pub proof fn lemma_catch_up_bound(it: IterModel, k: nat)
    requires
        it_wf(it),
    ensures
        0 <= ticks_in_run(it, k),
        ticks_in_run(it, k) + it.ticks_given <= it.met.max_ticks_behind,
    decreases k,
{
    if k != 0 {
        lemma_step_wf(it);
        match model_step(it).0 {
            None => (),
            Some(rd) => {
                lemma_catch_up_bound(model_step(it).1, (k - 1) as nat);
            },
        }
    }
}

/// Mode exclusivity: `TickOnly` never yields `Frame`, and
/// `UnlimitedFrames` never yields `Idle`, however many readings are
/// pulled.
pub proof fn lemma_mode_exclusivity(it: IterModel, k: nat)
    requires
        it_wf(it),
    ensures
        it.mode matches Mode::TickOnly ==> run_frame_free(it, k),
        it.mode matches Mode::UnlimitedFrames ==> run_idle_free(it, k),
    decreases k,
{
    if k != 0 {
        lemma_step_wf(it);
        match model_step(it).0 {
            None => (),
            Some(rd) => {
                lemma_mode_exclusivity(model_step(it).1, (k - 1) as nat);
            },
        }
    }
}

/// Phase bounds: every `Frame` reading satisfies `0 <= phase <= 1`,
/// however many readings are pulled.
pub proof fn lemma_phase_bounds(it: IterModel, k: nat)
    requires
        it_wf(it),
    ensures
        run_phases_bounded(it, k),
    decreases k,
{
    if k != 0 {
        lemma_step_wf(it);
        match model_step(it).0 {
            None => (),
            Some(rd) => {
                lemma_phase_bounds(model_step(it).1, (k - 1) as nat);
            },
        }
    }
}

/// No duplicate frames: one pass yields at most one `Frame`, and when it
/// yields one, that frame's instant differs from the last one recorded
/// and is recorded in turn. So, while the frame anchor survives (a
/// regression, lost ticks, or a change of frame rate clears it), no two
/// emitted frames share an instant.
pub proof fn lemma_no_duplicate_frames(it: IterModel, k: nat)
    requires
        it_wf(it),
    ensures
        frames_in_run(it, k) <= (if it.frame is Some {
            1int
        } else {
            0int
        }),
        0 <= frames_in_run(it, k),
        (match (model_step(it).0, it.met.last_frame, it.frame) {
            (Some(Reading::Frame { .. }), Some(lf), Some(f)) => lf.at != f.at
                && model_step(it).1.met.last_frame == Some(f),
            _ => true,
        }),
    decreases k,
{
    if k != 0 {
        lemma_step_wf(it);
        match model_step(it).0 {
            None => (),
            Some(rd) => {
                lemma_no_duplicate_frames(model_step(it).1, (k - 1) as nat);
            },
        }
    }
}

/// Once a pass reports that it is over, it stays over: pulling again
/// yields nothing and changes nothing further.
pub proof fn lemma_pass_ends(it: IterModel)
    requires
        it_wf(it),
        model_step(it).0 is None,
    ensures
        model_step(model_step(it).1).0 is None,
        model_step(model_step(it).1).1 == model_step(it).1,
{
}

/// Consecutive frames never share an instant, even across samples: a pass
/// that emits a frame records its instant, and the next sample proposes
/// that instant again only to discard it — as long as the frame anchor
/// survives, that is, the frame-governing rate is unchanged and the clock
/// did not regress.
pub proof fn lemma_consecutive_frames_distinct(it: IterModel, mode2: Mode, now2: int)
    requires
        it_wf(it),
        mode_wf(mode2),
        0 <= now2 <= NOW_LIMIT,
        model_step(it).0 matches Some(Reading::Frame { .. }),
    ensures
        ({
            let met = model_step(it).1.met;
            let it2 = model_sample(met, mode2, now2);
            (opt_rate_eq(model_frame_rate(mode2, met.tickrate), met.last_framerate)
                && !model_regressed(met, now2)) ==> (match (it.frame, it2.frame) {
                (Some(f), Some(g)) => g.at != f.at,
                _ => true,
            })
        }),
{
}

/// Per-sample setup preserves well-formed state and is idempotent: once
/// the frame-governing rate is recorded, recording it again changes
/// nothing.
pub proof fn lemma_setup_wf(m: MetModel, mode: Mode)
    requires
        met_wf(m),
        mode_wf(mode),
    ensures
        met_wf(model_setup(m, mode)),
        model_setup(model_setup(m, mode), mode) == model_setup(m, mode),
{
}

/// Idle correctness: when a pass's only reading is `Idle { duration }`,
/// advancing the clock by exactly that duration and resampling never
/// yields an immediate `Idle` again (nor a regression report): the stated
/// wait is always sufficient and never excessive. In the purely
/// tick-paced modes the next pass opens with a due tick at once (or with
/// `TicksLost`, when the ceiling is zero).
pub proof fn lemma_idle_correct(m: MetModel, mode: Mode, now: int, d: u64)
    requires
        met_wf(m),
        mode_wf(mode),
        0 <= now,
        now + d <= NOW_LIMIT,
        model_step(model_sample(m, mode, now)).0 == Some(Reading::Idle { duration: d }),
    ensures
        ({
            let it2 = model_sample(
                model_step(model_sample(m, mode, now)).1.met,
                mode,
                now + d,
            );
            &&& !(model_step(it2).0 matches Some(Reading::Idle { .. }))
            &&& !(model_step(it2).0 matches Some(Reading::TimeWentBackwards))
            &&& ((mode matches Mode::TickOnly || mode matches Mode::OneFramePerTick) ==> (
            model_step(it2).0 == Some(Reading::Tick) || model_step(it2).0 == Some(
                Reading::TicksLost,
            )))
        }),
{
    crate::rate::lemma_rate_bounds(m.tickrate);
    lemma_setup_wf(m, mode);
    let m1 = model_setup(m, mode);
    let it0 = model_new(m1, mode, now);
    let s0 = model_step(it0);
    let now2 = now + d;

    // The pass that yielded the idle had nothing due: no regression, no
    // surviving frame, and a tick boundary strictly in the future.
    assert(!it0.time_went_backwards);
    assert(it0.met == m1);
    assert(it0.frame is None);
    assert(!model_tick_due(it0));
    let tick0 = model_tick_candidate(m1, now);
    assert(m1.future_tick is Some) by {
        if m1.future_tick is None {
            assert(tick0.at == now);
            assert(it0.tick == Some(tick0));
            assert(model_tick_due(it0));
        }
    }
    let fu = match m1.future_tick {
        Some(f) => f,
        None => arbitrary(),
    };
    let pa = match m1.past_tick {
        Some(p) => p,
        None => arbitrary(),
    };
    assert(m1.past_tick is Some);
    assert(pa.at <= now);
    assert(tick0 == model_next(fu, m1.tickrate));
    assert(pi_wf(tick0, m1.tickrate));
    assert(tick0.at > fu.at);
    assert(it0.tick is None);
    assert(tick0.at > now);

    // The duration handed out is the pending idle itself.
    let di = match it0.idle_for {
        Some(x) => x,
        None => arbitrary(),
    };
    assert(it0.idle_for is Some);
    assert(s0.0 == Some(Reading::Idle { duration: di as u64 }));
    assert(s0.1.met == m1);

    // Resampling after the wait: same state, same candidate boundary, and
    // certainly no regression.
    let it2 = model_sample(s0.1.met, mode, now2);
    assert(it2 == model_new(m1, mode, now2));
    assert(!model_regressed(m1, now2));
    assert(!it2.time_went_backwards);
    assert(it2.met == m1);
    assert(model_tick_candidate(m1, now2) == tick0);

    match mode {
        Mode::TickOnly => {
            assert(di == tick0.at - now);
            assert(0 <= di <= u64::MAX);
            assert(di == d as int);
            assert(now2 == tick0.at);
            assert(it2.frame is None);
            assert(it2.tick == Some(tick0));
            assert(model_tick_due(it2));
            assert(!model_should_render(it2));
        },
        Mode::OneFramePerTick => {
            assert(di == tick0.at - now);
            assert(0 <= di <= u64::MAX);
            assert(di == d as int);
            assert(now2 == tick0.at);
            // The frame candidate at the resample is the boundary itself,
            // which sits just past the tracked bracket, so the tick is
            // taken first whether or not the candidate survives.
            lemma_last_tick_at_target(tick0, now2, m1.tickrate);
            assert(it2.tick == Some(tick0));
            assert(model_tick_due(it2));
            assert(!model_should_render(it2)) by {
                match it2.frame {
                    Some(f) => {
                        assert(f == tick0);
                        assert(f.at > fu.at);
                    },
                    None => (),
                }
            }
        },
        Mode::UnlimitedFrames => {
            assert(it0.idle_for is None);
            assert(false);
        },
        Mode::TargetFramesPerSecond(rf) => {
            crate::rate::lemma_rate_bounds(rf);
            let a_val = tick0.at - now;
            match m1.last_frame {
                None => {
                    assert(di == a_val);
                    assert(0 <= di <= u64::MAX);
                    assert(di == d as int);
                    assert(now2 == tick0.at);
                    lemma_last_tick_at_target(tick0, now2, m1.tickrate);
                    assert(it2.frame == Some(tick0));
                    assert(it2.tick == Some(tick0));
                    assert(model_tick_due(it2));
                    assert(!model_should_render(it2));
                },
                Some(lf) => {
                    let bat = model_next(lf, rf).at;
                    assert(bat >= now);
                    let b_val = bat - now;
                    assert(di == (if a_val < b_val {
                        a_val
                    } else {
                        b_val
                    }));
                    assert(0 <= di <= u64::MAX);
                    assert(di == d as int);
                    if a_val <= b_val {
                        assert(now2 == tick0.at);
                        match it2.frame {
                            Some(f2) => {
                                assert(it2.tick == Some(tick0));
                                if model_should_render(it2) {
                                    assert(model_step(it2).0 matches Some(
                                        Reading::Frame { .. },
                                    ));
                                } else {
                                    assert(model_tick_due(it2));
                                }
                            },
                            None => {
                                assert(it2.tick == Some(tick0));
                                assert(model_tick_due(it2));
                                assert(!model_should_render(it2));
                            },
                        }
                    } else {
                        assert(now2 == bat);
                        assert(tick0.at > now2);
                        match it2.frame {
                            Some(f2) => {
                                assert(it2.tick == Some(tick0));
                                if model_should_render(it2) {
                                    assert(model_step(it2).0 matches Some(
                                        Reading::Frame { .. },
                                    ));
                                } else {
                                    assert(model_tick_due(it2));
                                }
                            },
                            None => {
                                // Nothing due yet for the tick, and the next
                                // frame boundary is exactly now: the idle
                                // collapses to zero and is filtered, so the
                                // pass is simply empty.
                                assert(it2.tick is None);
                                assert(model_idle_raw(m1, mode, now2, tick0, it2.frame)
                                    == Some(0int));
                                assert(it2.idle_for is None);
                                assert(model_step(it2).0 is None);
                            },
                        }
                    }
                },
            }
        },
    }
}

/// A freshly sampled pass never proposes the last recorded frame's
/// instant again, and never one in the future.
pub proof fn lemma_sample_frame_fresh(m: MetModel, mode: Mode, now: int)
    requires
        met_wf(m),
        mode_wf(mode),
        0 <= now <= NOW_LIMIT,
    ensures
        (match (model_sample(m, mode, now).frame, model_sample(m, mode, now).met.last_frame) {
            (Some(f), Some(lf)) => f.at != lf.at && f.at <= now,
            (Some(f), None) => f.at <= now,
            _ => true,
        }),
{
}

} // verus!
