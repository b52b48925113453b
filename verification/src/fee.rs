use vstd::prelude::*;
use vstd::arithmetic::div_mod::*;

verus! {

/// Fee rates are expressed in parts per million (6-decimal fixed point):
/// a rate of `1_000_000` is 100% of the amount.
pub const FEE_DENOMINATOR: u128 = 1_000_000;

/// Clamping bounds for a computed fee, in the value's smallest unit.
/// `upper_bound == 0` is the sentinel meaning "no upper clamp".
#[derive(Debug)]
pub struct FeeBounds {
    pub lower_bound: u128,
    pub upper_bound: u128,
}

/// Fee rate and bounds for one transfer direction.
#[derive(Debug)]
pub struct FeeSchedule {
    /// Rate in parts per million; at most `FEE_DENOMINATOR`.
    pub percentage: u128,
    pub bounds: FeeBounds,
}

impl FeeBounds {
    /// When an upper clamp is configured it must lie strictly above the lower one.
    pub open spec fn wf(&self) -> bool {
        self.upper_bound != 0 ==> self.lower_bound < self.upper_bound
    }
}

impl FeeSchedule {
    pub open spec fn wf(&self) -> bool {
        &&& self.percentage <= FEE_DENOMINATOR
        &&& self.bounds.wf()
    }

    /// A schedule that charges nothing, used until an administrator configures rates.
    pub fn zero() -> (r: FeeSchedule)
        ensures
            r.wf(),
            r.percentage == 0,
            r.bounds.lower_bound == 0,
            r.bounds.upper_bound == 0,
    {
        FeeSchedule { percentage: 0, bounds: FeeBounds { lower_bound: 0, upper_bound: 0 } }
    }
}

/// The unclamped fee: `floor(amount * percentage / 1_000_000)`.
pub open spec fn spec_raw_fee(amount: u128, percentage: u128) -> int {
    (amount * percentage) / (FEE_DENOMINATOR as int)
}

/// The raw fee pushed into `[lower_bound, upper_bound]` (the upper clamp only
/// when configured). The lower clamp applies even at a zero rate: bounds can
/// force a nonzero fee.
pub open spec fn spec_clamped_fee(amount: u128, percentage: u128, bounds: FeeBounds) -> int {
    let raw = spec_raw_fee(amount, percentage);
    if raw < bounds.lower_bound {
        bounds.lower_bound as int
    } else if bounds.upper_bound != 0 && raw > bounds.upper_bound {
        bounds.upper_bound as int
    } else {
        raw
    }
}

/// The fee a schedule assigns to an amount.
pub open spec fn spec_fee(amount: u128, schedule: FeeSchedule) -> int {
    spec_clamped_fee(amount, schedule.percentage, schedule.bounds)
}

proof fn lemma_raw_fee_bounds(amount: u128, percentage: u128)
    requires
        percentage <= FEE_DENOMINATOR,
    ensures
        0 <= spec_raw_fee(amount, percentage) <= amount,
{
    let m = FEE_DENOMINATOR as int;
    assert(amount * percentage >= 0) by (nonlinear_arith)
        requires amount >= 0 && percentage >= 0;
    lemma_div_is_ordered(0, amount * percentage, m);
    assert(amount * percentage <= amount * m) by (nonlinear_arith)
        requires amount >= 0 && percentage <= m;
    lemma_div_is_ordered(amount * percentage, amount * m, m);
    lemma_div_by_multiple(amount as int, m);
}

/// Computes the clamped fee for `amount` under `schedule`.
pub fn compute_fee(amount: u128, schedule: &FeeSchedule) -> (fee: u128)
    requires
        schedule.wf(),
    ensures
        fee == spec_fee(amount, *schedule),
{
    let p = schedule.percentage;
    let q = amount / FEE_DENOMINATOR;
    let r = amount % FEE_DENOMINATOR;
    proof {
        lemma_fundamental_div_mod(amount as int, FEE_DENOMINATOR as int);
        assert(q * p <= q * 1_000_000) by (nonlinear_arith)
            requires q >= 0 && p <= 1_000_000;
        assert(q * 1_000_000 + r <= amount);
        assert(r * p <= 1_000_000 * 1_000_000) by (nonlinear_arith)
            requires 0 <= r <= 1_000_000 && 0 <= p <= 1_000_000;
        let m = FEE_DENOMINATOR as int;
        assert((r * p) / m <= r) by {
            assert(r * p <= r * m) by (nonlinear_arith)
                requires r >= 0 && p <= m;
            lemma_div_is_ordered(r * p, r * m, m);
            lemma_div_by_multiple(r as int, m);
        };
    }
    let raw = q * p + (r * p) / FEE_DENOMINATOR;
    proof {
        let m = FEE_DENOMINATOR as int;
        assert(amount * p == r * p + (q * p) * m) by (nonlinear_arith)
            requires amount == q * m + r;
        lemma_hoist_over_denominator(r * p, q * p, m as nat);
        assert(raw == spec_raw_fee(amount, p));
    }
    if raw < schedule.bounds.lower_bound {
        schedule.bounds.lower_bound
    } else if schedule.bounds.upper_bound != 0 && raw > schedule.bounds.upper_bound {
        schedule.bounds.upper_bound
    } else {
        raw
    }
}

/// Fee monotonicity: with one schedule, a larger amount never pays a smaller
/// clamped fee.
pub proof fn lemma_fee_monotonic(amount1: u128, amount2: u128, schedule: FeeSchedule)
    requires
        schedule.wf(),
        amount1 <= amount2,
    ensures
        spec_fee(amount1, schedule) <= spec_fee(amount2, schedule),
{
    let m = FEE_DENOMINATOR as int;
    let p = schedule.percentage;
    assert(amount1 * p <= amount2 * p) by (nonlinear_arith)
        requires amount1 <= amount2 && p >= 0;
    lemma_div_is_ordered(amount1 * p, amount2 * p, m);
    lemma_raw_fee_bounds(amount1, p);
    lemma_raw_fee_bounds(amount2, p);
}

} // verus!
