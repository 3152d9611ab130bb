use vstd::arithmetic::div_mod::{
    lemma_div_is_ordered, lemma_div_nonincreasing, lemma_div_pos_is_pos,
    lemma_fundamental_div_mod, lemma_mod_bound, lemma_small_mod,
};
use vstd::prelude::*;

verus! {

/// Nanoseconds in one second, the unit everything here is counted in.
pub const NANOS_PER_SECOND: u64 = 1_000_000_000;

/// Largest numerator or denominator a [`Rate`] accepts.
pub const RATE_LIMIT: u32 = 1_000_000_000;

/// A frequency, measured by a ratio of ticks to seconds, precomputed into an
/// integer nanosecond step per tick plus a fractional remainder (the
/// "residual"), so that repeated stepping stays exact forever.
#[derive(Clone, Copy, Debug)]
pub struct Rate {
    /// Ticks, reduced by the greatest common divisor of the pair.
    pub numerator: u32,
    /// Seconds, reduced by the greatest common divisor of the pair.
    pub denominator: u32,
    /// Whole nanoseconds per tick: `denominator * 1e9 / numerator`, rounded
    /// down.
    pub duration_per: u64,
    /// The fraction of a nanosecond that accumulates each tick. The numerator
    /// of that fraction is `residual_per` and its denominator is `numerator`.
    pub residual_per: u32,
}

/// Euclid's greatest common divisor; `spec_gcd(a, 0) == a`.
pub open spec fn spec_gcd(a: nat, b: nat) -> nat
    decreases b,
{
    if b == 0 {
        a
    } else {
        spec_gcd(b, a % b)
    }
}

/// The derived fields of a well-formed rate hold exactly the division of
/// `denominator` seconds (in nanoseconds) by `numerator` ticks.
pub open spec fn rate_wf(r: Rate) -> bool {
    &&& 1 <= r.numerator <= RATE_LIMIT
    &&& 1 <= r.denominator <= RATE_LIMIT
    &&& r.duration_per == (NANOS_PER_SECOND as int) * (r.denominator as int) / (r.numerator as int)
    &&& r.residual_per == (NANOS_PER_SECOND as int) * (r.denominator as int) % (r.numerator as int)
}

/// Two rates agree exactly when their reduced ratios do; the derived fields
/// are bookkeeping, not identity.
pub open spec fn rate_eq(a: Rate, b: Rate) -> bool {
    a.numerator == b.numerator && a.denominator == b.denominator
}

/// A well-formed rate steps by at least one and at most a billion seconds'
/// worth of nanoseconds, and its residual is a proper fraction.
pub proof fn lemma_rate_bounds(r: Rate)
    requires
        rate_wf(r),
    ensures
        1 <= r.duration_per <= 1_000_000_000_000_000_000,
        r.residual_per < r.numerator,
        (r.duration_per as int) * (r.numerator as int) + r.residual_per == (
        NANOS_PER_SECOND as int) * (r.denominator as int),
{
    let total = (NANOS_PER_SECOND as int) * (r.denominator as int);
    let n = r.numerator as int;
    assert(NANOS_PER_SECOND as int <= total <= 1_000_000_000_000_000_000) by (nonlinear_arith)
        requires
            1 <= r.denominator <= 1_000_000_000,
            total == (NANOS_PER_SECOND as int) * (r.denominator as int),
    ;
    lemma_div_pos_is_pos(total, n);
    lemma_div_is_ordered(n, total, n);
    assert(n / n == 1) by (nonlinear_arith)
        requires
            1 <= n,
    ;
    lemma_div_nonincreasing(total, n);
    lemma_mod_bound(total, n);
    lemma_fundamental_div_mod(total, n);
}

/// The greatest common divisor of two positive numbers is positive and no
/// larger than either.
pub proof fn lemma_gcd_bounds(a: nat, b: nat)
    requires
        a >= 1,
        b >= 1,
    ensures
        1 <= spec_gcd(a, b),
        spec_gcd(a, b) <= a,
        spec_gcd(a, b) <= b,
    decreases b,
{
    lemma_mod_bound(a as int, b as int);
    if a % b == 0 {
        assert(spec_gcd(a, b) == spec_gcd(b, 0)) by {
            reveal_with_fuel(spec_gcd, 2);
        }
        lemma_fundamental_div_mod(a as int, b as int);
        lemma_div_pos_is_pos(a as int, b as int);
        assert(b <= a) by (nonlinear_arith)
            requires
                a == (b as int) * ((a as int) / (b as int)),
                (a as int) / (b as int) >= 0,
                b >= 1,
                a >= 1,
        ;
    } else {
        lemma_gcd_bounds(b, a % b);
        vstd::arithmetic::div_mod::lemma_mod_decreases(a, b);
    }
}

/// Swapping the arguments leaves the greatest common divisor unchanged.
pub proof fn lemma_gcd_comm(a: nat, b: nat)
    requires
        a >= 1,
        b >= 1,
    ensures
        spec_gcd(a, b) == spec_gcd(b, a),
{
    if a == b {
    } else if a < b {
        lemma_small_mod(a, b);
        assert(spec_gcd(b, a % b) == spec_gcd(b, a));
    } else {
        lemma_small_mod(b, a);
        assert(spec_gcd(a, b % a) == spec_gcd(a, b));
    }
}

/// The greatest common divisor of two positive 32-bit numbers, by Euclid's
/// algorithm.
pub fn gcd(a: u32, b: u32) -> (r: u32)
    requires
        a >= 1,
        b >= 1,
    ensures
        r == spec_gcd(a as nat, b as nat),
        1 <= r <= a,
        r <= b,
{
    proof {
        lemma_gcd_bounds(a as nat, b as nat);
        if a <= b {
            lemma_gcd_comm(a as nat, b as nat);
        }
    }
    let (mut big, mut small) = if a > b {
        (a, b)
    } else {
        (b, a)
    };
    while big != small
        invariant
            1 <= small <= big,
            small <= a,
            small <= b,
            spec_gcd(big as nat, small as nat) == spec_gcd(a as nat, b as nat),
        decreases small,
    {
        proof {
            lemma_mod_bound(big as int, small as int);
        }
        let m = big % small;
        if m == 0 {
            assert(spec_gcd(big as nat, small as nat) == small as nat) by {
                reveal_with_fuel(spec_gcd, 2);
            }
            return small;
        } else {
            big = small;
            small = m;
        }
    }
    proof {
        vstd::arithmetic::div_mod::lemma_mod_self_0(big as int);
        assert(spec_gcd(big as nat, big as nat) == big as nat) by {
            reveal_with_fuel(spec_gcd, 2);
        }
    }
    big
}

/// The rate that `per_second` builds: the pair reduced by its greatest
/// common divisor, with the nanosecond step and residual of the reduced
/// ratio.
pub open spec fn spec_per_second(numerator: u32, denominator: u32) -> Rate {
    let g = spec_gcd(numerator as nat, denominator as nat);
    let n = (numerator as nat) / g;
    let d = (denominator as nat) / g;
    Rate {
        numerator: n as u32,
        denominator: d as u32,
        duration_per: ((NANOS_PER_SECOND as int) * (d as int) / (n as int)) as u64,
        residual_per: ((NANOS_PER_SECOND as int) * (d as int) % (n as int)) as u32,
    }
}

impl Rate {
    /// Creates a new `Rate` with the given numerator and denominator. The
    /// denominator is seconds.
    ///
    /// Both must be nonzero and at most one billion; these are configuration
    /// values, validated at construction and immutable afterwards.
    pub fn per_second(numerator: u32, denominator: u32) -> (r: Rate)
        requires
            1 <= numerator <= RATE_LIMIT,
            1 <= denominator <= RATE_LIMIT,
        ensures
            r == spec_per_second(numerator, denominator),
            rate_wf(r),
    {
        let g = gcd(numerator, denominator);
        let n = numerator / g;
        let d = denominator / g;
        proof {
            lemma_div_pos_is_pos(numerator as int, g as int);
            lemma_div_pos_is_pos(denominator as int, g as int);
            lemma_div_is_ordered(g as int, numerator as int, g as int);
            lemma_div_is_ordered(g as int, denominator as int, g as int);
            assert((g as int) / (g as int) == 1) by (nonlinear_arith)
                requires
                    1 <= g,
            ;
            lemma_div_nonincreasing(numerator as int, g as int);
            lemma_div_nonincreasing(denominator as int, g as int);
        }
        let denominator_in_nanoseconds: u64 = NANOS_PER_SECOND * (d as u64);
        let number_of_nanoseconds: u64 = denominator_in_nanoseconds / (n as u64);
        let residual: u64 = denominator_in_nanoseconds % (n as u64);
        proof {
            lemma_mod_bound(denominator_in_nanoseconds as int, n as int);
        }
        Rate {
            numerator: n,
            denominator: d,
            duration_per: number_of_nanoseconds,
            residual_per: residual as u32,
        }
    }
}

impl PartialEq for Rate {
    /// Equality compares only the reduced ratio, not the derived fields.
    fn eq(&self, other: &Self) -> (r: bool) {
        self.numerator == other.numerator && self.denominator == other.denominator
    }
}

impl vstd::std_specs::cmp::PartialEqSpecImpl for Rate {
    open spec fn obeys_eq_spec() -> bool {
        true
    }

    open spec fn eq_spec(&self, other: &Self) -> bool {
        rate_eq(*self, *other)
    }
}

} // verus!
