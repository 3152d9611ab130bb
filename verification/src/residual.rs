use crate::rate::{lemma_rate_bounds, rate_wf, Rate, NANOS_PER_SECOND};
use crate::time::{TemporalSample, TimePoint};
use vstd::arithmetic::div_mod::{
    lemma_basic_div, lemma_div_is_ordered, lemma_div_pos_is_pos, lemma_fundamental_div_mod,
    lemma_fundamental_div_mod_converse, lemma_mod_bound, lemma_small_mod,
};
use vstd::arithmetic::mul::lemma_mul_inequality;
use vstd::prelude::*;

verus! {

/// A stored residual counter never exceeds this, whatever rate produced it.
pub const RESIDUAL_LIMIT: u32 = 1_000_000_000;

/// A timestamp augmented with a residual (sub-nanosecond) counter, so that
/// repeatedly stepping it by a [`Rate`] accumulates no rounding error. The
/// residual counts in units of `1 / rate.numerator` nanosecond; it is only
/// meaningful relative to the rate that produced it, so it must be forgotten
/// whenever that rate changes.
///
/// Equality and ordering of instants go by the timestamp alone; the residual
/// is internal bookkeeping, not temporal identity.
#[derive(Clone, Copy, Debug)]
pub struct PreciseInstant {
    /// The whole-nanosecond position.
    pub at: TimePoint,
    /// Fractional nanoseconds, in units of 1/numerator nanosecond.
    pub residual: u32,
}

/// The mathematical image of a [`PreciseInstant`]: its nanosecond position
/// and residual counter as unbounded integers.
pub ghost struct PiModel {
    pub at: int,
    pub residual: int,
}

impl View for PreciseInstant {
    type V = PiModel;

    open spec fn view(&self) -> PiModel {
        PiModel { at: self.at.nanos as int, residual: self.residual as int }
    }
}

impl PartialEq for PreciseInstant {
    /// Instants compare by timestamp alone; the residual is bookkeeping.
    fn eq(&self, other: &Self) -> (r: bool) {
        self.at.nanos == other.at.nanos
    }
}

impl vstd::std_specs::cmp::PartialEqSpecImpl for PreciseInstant {
    open spec fn obeys_eq_spec() -> bool {
        true
    }

    open spec fn eq_spec(&self, other: &Self) -> bool {
        self.at.nanos == other.at.nanos
    }
}

impl From<TimePoint> for PreciseInstant {
    /// A plain timestamp becomes an instant with no fractional part.
    fn from(at: TimePoint) -> (r: Self) {
        PreciseInstant { at, residual: 0 }
    }
}

impl vstd::std_specs::convert::FromSpecImpl<TimePoint> for PreciseInstant {
    open spec fn obeys_from_spec() -> bool {
        true
    }

    open spec fn from_spec(at: TimePoint) -> Self {
        PreciseInstant { at, residual: 0 }
    }
}

/// An instant is well formed under a rate when its residual is a proper
/// fraction of that rate's numerator.
pub open spec fn pi_wf(p: PiModel, rate: Rate) -> bool {
    &&& 0 <= p.at
    &&& 0 <= p.residual < rate.numerator
}

/// A residual that some well-formed rate produced, though perhaps not the
/// one now in force: nonnegative and at most a billion.
pub open spec fn pi_loose(p: PiModel) -> bool {
    &&& 0 <= p.at
    &&& 0 <= p.residual <= RESIDUAL_LIMIT
}

/// One tick forward: add the whole-nanosecond step, accumulate the residual,
/// and carry one extra nanosecond when the residual reaches a whole one.
pub open spec fn model_next(p: PiModel, rate: Rate) -> PiModel {
    let total = p.residual + rate.residual_per;
    if total >= rate.numerator {
        PiModel { at: p.at + rate.duration_per + 1, residual: total - rate.numerator }
    } else {
        PiModel { at: p.at + rate.duration_per, residual: total }
    }
}

/// `n` ticks forward in one jump, with the same residual arithmetic scaled
/// by `n`: the accumulated residual is divided out into whole nanoseconds.
pub open spec fn model_nth(p: PiModel, n: int, rate: Rate) -> PiModel {
    let total = p.residual + rate.residual_per * n;
    PiModel {
        at: p.at + rate.duration_per * n + total / (rate.numerator as int),
        residual: total % (rate.numerator as int),
    }
}

/// How many whole ticks fit between `p` and `target`, estimated by dividing
/// the elapsed nanoseconds by the whole-nanosecond step and ignoring the
/// residual, saturating at `u32::MAX`. The ignored residual can make this
/// overshoot by a bounded amount; callers verify with explicit comparisons.
pub open spec fn model_ticks_until(p: PiModel, target: int, rate: Rate) -> int {
    if target < p.at {
        0
    } else {
        let q = (target - p.at) / (rate.duration_per as int);
        if q > u32::MAX {
            u32::MAX as int
        } else {
            q
        }
    }
}

/// The instant `ticks_until` ticks after `p`: near `target` in one jump,
/// rather than by stepping one tick at a time.
pub open spec fn model_last_tick_before(p: PiModel, target: int, rate: Rate) -> PiModel {
    model_nth(p, model_ticks_until(p, target, rate), rate)
}

/// `p` stepped by `k` single ticks.
pub open spec fn model_next_steps(p: PiModel, rate: Rate, k: nat) -> PiModel
    decreases k,
{
    if k == 0 {
        p
    } else {
        model_next(model_next_steps(p, rate, (k - 1) as nat), rate)
    }
}

/// The tick estimate never makes the jump overshoot the elapsed time:
/// `duration_per * ticks_until <= target - p.at` whenever `target` is not
/// in the past.
pub proof fn lemma_ticks_until_bound(p: PiModel, target: int, rate: Rate)
    requires
        rate_wf(rate),
    ensures
        0 <= model_ticks_until(p, target, rate) <= u32::MAX,
        target >= p.at ==> (rate.duration_per as int) * model_ticks_until(p, target, rate)
            <= target - p.at,
{
    lemma_rate_bounds(rate);
    let d = rate.duration_per as int;
    if target >= p.at {
        let e = target - p.at;
        let f = e / d;
        lemma_div_pos_is_pos(e, d);
        lemma_fundamental_div_mod(e, d);
        lemma_mod_bound(e, d);
        assert(d * f <= e);
        let q = model_ticks_until(p, target, rate);
        assert(0 <= q <= f);
        lemma_mul_inequality(q, f, d);
        assert(q * d <= f * d) by (nonlinear_arith)
            requires
                0 <= q <= f,
                d >= 1,
        ;
        assert(d * q == q * d) by (nonlinear_arith);
        assert(d * f == f * d) by (nonlinear_arith);
    }
}

/// Bounds on where a jump of `n` ticks lands: at least the whole-nanosecond
/// steps, and at most `n + RESIDUAL_LIMIT` nanoseconds more than that, with
/// a residual that is always a proper fraction afterwards.
pub proof fn lemma_nth_bound(p: PiModel, n: int, rate: Rate)
    requires
        rate_wf(rate),
        pi_loose(p),
        0 <= n <= u32::MAX,
    ensures
        model_nth(p, n, rate).at >= p.at + (rate.duration_per as int) * n,
        model_nth(p, n, rate).at <= p.at + (rate.duration_per as int) * n + n + (
        RESIDUAL_LIMIT as int),
        0 <= model_nth(p, n, rate).residual < rate.numerator,
        pi_loose(model_nth(p, n, rate)),
{
    lemma_rate_bounds(rate);
    let m = rate.numerator as int;
    let total = p.residual + (rate.residual_per as int) * n;
    assert(0 <= (rate.residual_per as int) * n <= (m - 1) * n) by (nonlinear_arith)
        requires
            0 <= rate.residual_per <= m - 1,
            0 <= n,
    ;
    lemma_div_pos_is_pos(total, m);
    lemma_mod_bound(total, m);
    assert(total <= m * (n + RESIDUAL_LIMIT)) by (nonlinear_arith)
        requires
            total <= (RESIDUAL_LIMIT as int) + (m - 1) * n,
            1 <= m,
            0 <= n,
            RESIDUAL_LIMIT == 1_000_000_000,
    ;
    lemma_div_is_ordered(total, m * (n + RESIDUAL_LIMIT), m);
    vstd::arithmetic::div_mod::lemma_div_by_multiple(n + (RESIDUAL_LIMIT as int), m);
    assert((m * (n + RESIDUAL_LIMIT)) == ((n + RESIDUAL_LIMIT) * m)) by (nonlinear_arith);
}

/// A jump of zero ticks goes nowhere.
pub proof fn lemma_nth_zero(p: PiModel, rate: Rate)
    requires
        rate_wf(rate),
        pi_wf(p, rate),
    ensures
        model_nth(p, 0, rate) == p,
{
    lemma_rate_bounds(rate);
    assert((rate.residual_per as int) * 0 == 0) by (nonlinear_arith);
    assert((rate.duration_per as int) * 0 == 0) by (nonlinear_arith);
    lemma_basic_div(p.residual, rate.numerator as int);
    lemma_small_mod(p.residual as nat, rate.numerator as nat);
}

/// Seeking toward an instant's own position goes nowhere: the estimate is
/// zero ticks, and a zero jump is the identity.
pub proof fn lemma_last_tick_at_target(p: PiModel, target: int, rate: Rate)
    requires
        rate_wf(rate),
        pi_wf(p, rate),
        target == p.at,
    ensures
        model_last_tick_before(p, target, rate) == p,
{
    lemma_rate_bounds(rate);
    lemma_basic_div(0, rate.duration_per as int);
    assert(model_ticks_until(p, target, rate) == 0);
    lemma_nth_zero(p, rate);
}

/// A jump of `n` ticks is exactly `n` single ticks, whenever the starting
/// residual is a proper fraction of the rate's numerator.
pub proof fn lemma_nth_matches_steps(p: PiModel, rate: Rate, k: nat)
    requires
        rate_wf(rate),
        pi_wf(p, rate),
    ensures
        model_next_steps(p, rate, k) == model_nth(p, k as int, rate),
    decreases k,
{
    lemma_rate_bounds(rate);
    let m = rate.numerator as int;
    let d = rate.duration_per as int;
    let e = rate.residual_per as int;
    if k == 0 {
        lemma_basic_div(p.residual, m);
        lemma_small_mod(p.residual as nat, m as nat);
        assert(model_nth(p, 0, rate) == p);
    } else {
        let j = (k - 1) as nat;
        lemma_nth_matches_steps(p, rate, j);
        let prev = model_nth(p, j as int, rate);
        let t1 = p.residual + e * (j as int);
        let t2 = p.residual + e * (k as int);
        assert(t2 == t1 + e) by (nonlinear_arith)
            requires
                t1 == p.residual + e * (j as int),
                t2 == p.residual + e * (k as int),
                k == j + 1,
        ;
        assert(0 <= e * (j as int)) by (nonlinear_arith)
            requires
                0 <= e,
                0 <= j,
        ;
        lemma_fundamental_div_mod(t1, m);
        lemma_mod_bound(t1, m);
        lemma_div_pos_is_pos(t1, m);
        let q1 = t1 / m;
        let r1 = t1 % m;
        let cur = model_next(prev, rate);
        if r1 + e >= m {
            assert(t2 == (q1 + 1) * m + (r1 + e - m)) by (nonlinear_arith)
                requires
                    t1 == q1 * m + r1,
                    t2 == t1 + e,
            ;
            lemma_fundamental_div_mod_converse(t2, m, q1 + 1, r1 + e - m);
            assert(cur.at == p.at + d * (k as int) + t2 / m) by (nonlinear_arith)
                requires
                    cur.at == p.at + d * (j as int) + q1 + d + 1,
                    t2 / m == q1 + 1,
                    k == j + 1,
            ;
        } else {
            assert(t2 == q1 * m + (r1 + e)) by (nonlinear_arith)
                requires
                    t1 == q1 * m + r1,
                    t2 == t1 + e,
            ;
            lemma_fundamental_div_mod_converse(t2, m, q1, r1 + e);
            assert(cur.at == p.at + d * (k as int) + t2 / m) by (nonlinear_arith)
                requires
                    cur.at == p.at + d * (j as int) + q1 + d,
                    t2 / m == q1,
                    k == j + 1,
            ;
        }
    }
}

/// Exact periodicity: stepping any well-formed instant `numerator` times by
/// a rate advances it by exactly `denominator` seconds, and the residual
/// returns to where it started. There is no long-run drift, only a bounded
/// rounding of at most one nanosecond at any single step.
pub proof fn lemma_exact_periodicity(p: PiModel, rate: Rate)
    requires
        rate_wf(rate),
        pi_wf(p, rate),
    ensures
        model_next_steps(p, rate, rate.numerator as nat) == (PiModel {
            at: p.at + (NANOS_PER_SECOND as int) * (rate.denominator as int),
            residual: p.residual,
        }),
{
    lemma_rate_bounds(rate);
    let m = rate.numerator as int;
    let d = rate.duration_per as int;
    let e = rate.residual_per as int;
    lemma_nth_matches_steps(p, rate, rate.numerator as nat);
    let total = p.residual + e * m;
    assert(total == e * m + p.residual) by (nonlinear_arith)
        requires
            total == p.residual + e * m,
    ;
    lemma_fundamental_div_mod_converse(total, m, e, p.residual);
    assert(d * m + e == (NANOS_PER_SECOND as int) * (rate.denominator as int)) by (
    nonlinear_arith)
        requires
            (d as int) * m + e == (NANOS_PER_SECOND as int) * (rate.denominator as int),
    ;
}

impl PreciseInstant {
    /// The instant one tick later under `rate`: the whole-nanosecond step,
    /// plus a carried nanosecond whenever the accumulated residual reaches a
    /// whole one.
    pub fn next(&self, rate: &Rate) -> (r: Self)
        requires
            rate_wf(*rate),
            self.residual <= RESIDUAL_LIMIT,
            self.at.nanos + rate.duration_per + 1 <= u64::MAX,
        ensures
            r@ == model_next(self@, *rate),
            r.residual <= RESIDUAL_LIMIT,
            pi_wf(self@, *rate) ==> pi_wf(r@, *rate),
    {
        proof {
            lemma_rate_bounds(*rate);
        }
        let at = self.at.advanced_by(rate.duration_per);
        let residual = self.residual + rate.residual_per;
        if residual >= rate.numerator {
            let residual = residual - rate.numerator;
            Self { at: at.advanced_by(1), residual }
        } else {
            Self { at, residual }
        }
    }

    /// The instant `n` ticks later under `rate`, in one jump: the scaled
    /// residual arithmetic divides the accumulated fraction back out into
    /// whole nanoseconds.
    pub fn nth(&self, n: u32, rate: &Rate) -> (r: Self)
        requires
            rate_wf(*rate),
            self.residual <= RESIDUAL_LIMIT,
            self.at.nanos + (rate.duration_per as int) * n + (self.residual + (
            rate.residual_per as int) * n) / (rate.numerator as int) <= u64::MAX,
        ensures
            r@ == model_nth(self@, n as int, *rate),
            r.residual < rate.numerator,
            r.residual <= RESIDUAL_LIMIT,
    {
        proof {
            lemma_rate_bounds(*rate);
            lemma_nth_bound(self@, n as int, *rate);
            assert((rate.residual_per as int) * (n as int) <= (1_000_000_000 as int) * (
            u32::MAX as int)) by (nonlinear_arith)
                requires
                    0 <= rate.residual_per <= 1_000_000_000,
                    0 <= n <= u32::MAX,
            ;
            assert((rate.duration_per as int) * (n as int) >= 0) by (nonlinear_arith)
                requires
                    rate.duration_per >= 0,
                    n >= 0,
            ;
        }
        let total: u64 = self.residual as u64 + rate.residual_per as u64 * n as u64;
        let carry: u64 = total / (rate.numerator as u64);
        let rem: u64 = total % (rate.numerator as u64);
        proof {
            lemma_mod_bound(total as int, rate.numerator as int);
            lemma_div_pos_is_pos(total as int, rate.numerator as int);
            lemma_div_is_ordered(
                total as int,
                self.residual + (rate.residual_per as int) * (n as int),
                rate.numerator as int,
            );
        }
        let at = self.at.advanced_by(rate.duration_per * (n as u64)).advanced_by(carry);
        Self { at, residual: rem as u32 }
    }

    /// How many whole ticks fit before `target`, by integer division of the
    /// elapsed time by the whole-nanosecond step, saturating at `u32::MAX`.
    /// The ignored residual makes this an estimate that can overshoot by a
    /// bounded amount; it is only used to seek near a target before
    /// verifying with explicit comparisons.
    pub fn ticks_until(&self, target: &TimePoint, rate: &Rate) -> (r: u32)
        requires
            rate_wf(*rate),
        ensures
            r as int == model_ticks_until(self@, target.nanos as int, *rate),
    {
        proof {
            lemma_rate_bounds(*rate);
        }
        let difference = match target.time_since(&self.at) {
            None => {
                return 0;
            },
            Some(x) => x,
        };
        let q = difference / rate.duration_per;
        if q > u32::MAX as u64 {
            u32::MAX
        } else {
            q as u32
        }
    }

    /// The closest tick boundary at or just past `target` that stepping from
    /// `self` can reach in one jump: `nth(ticks_until(target))`.
    pub fn last_tick_before(&self, target: &TimePoint, rate: &Rate) -> (r: Self)
        requires
            rate_wf(*rate),
            self.residual <= RESIDUAL_LIMIT,
            self.at.nanos + (RESIDUAL_LIMIT as int) + (u32::MAX as int) <= u64::MAX,
            target.nanos + (RESIDUAL_LIMIT as int) + (u32::MAX as int) <= u64::MAX,
        ensures
            r@ == model_last_tick_before(self@, target.nanos as int, *rate),
            r.residual < rate.numerator,
            r.residual <= RESIDUAL_LIMIT,
            r.at.nanos <= (if target.nanos as int >= self@.at {
                target.nanos as int
            } else {
                self@.at
            }) + (RESIDUAL_LIMIT as int) + (u32::MAX as int),
    {
        proof {
            lemma_rate_bounds(*rate);
            lemma_ticks_until_bound(self@, target.nanos as int, *rate);
            lemma_nth_bound(
                self@,
                model_ticks_until(self@, target.nanos as int, *rate),
                *rate,
            );
            if (target.nanos as int) < self@.at {
                assert((rate.duration_per as int) * (model_ticks_until(
                    self@,
                    target.nanos as int,
                    *rate,
                )) == 0) by (nonlinear_arith)
                    requires
                        model_ticks_until(self@, target.nanos as int, *rate) == 0,
                ;
            }
        }
        let surplus = self.ticks_until(target, rate);
        self.nth(surplus, rate)
    }

    /// Reset the residual to zero. Call this whenever the rate governing
    /// this instant's sequence changes: residual values are only meaningful
    /// relative to the rate that produced them.
    pub fn forget_residual(&mut self)
        ensures
            final(self).at == old(self).at,
            final(self).residual == 0,
    {
        self.residual = 0;
    }
}

} // verus!
