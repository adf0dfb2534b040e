//! Fixed-point arithmetic. Every fractional quantity of this library (scores,
//! thresholds, frame rates) is an integer count of thousandths, and every
//! division and square root rounds down.

use vstd::prelude::*;

verus! {

/// How many units of a fixed-point value make one whole.
pub const SCALE: u64 = 1000;

/// `r` is the square root of `x`, rounded down.
pub open spec fn is_sqrt_floor(x: nat, r: nat) -> bool {
    r * r <= x < (r + 1) * (r + 1)
}

/// The square root of `x`, rounded down.
pub open spec fn sqrt_floor(x: nat) -> nat {
    choose|r: nat| is_sqrt_floor(x, r)
}

/// Squaring keeps the order of natural numbers.
pub proof fn lemma_square_monotonic(a: nat, b: nat)
    requires
        a <= b,
    ensures
        a * a <= b * b,
{
    assert(a * a <= b * b) by (nonlinear_arith)
        requires
            0 <= a <= b,
    ;
}

/// At most one number is the rounded-down square root of `x`, so whoever
/// finds one has found `sqrt_floor(x)`.
pub proof fn lemma_sqrt_floor_unique(x: nat, r: nat)
    requires
        is_sqrt_floor(x, r),
    ensures
        sqrt_floor(x) == r,
{
    let s = sqrt_floor(x);
    if s < r {
        lemma_square_monotonic(s + 1, r);
    } else if r < s {
        lemma_square_monotonic(r + 1, s);
    }
}

/// The square root of zero is zero.
pub proof fn lemma_sqrt_floor_zero()
    ensures
        sqrt_floor(0) == 0,
{
    assert(0nat * 0nat == 0 && (0nat + 1) * (0nat + 1) == 1) by (nonlinear_arith);
    lemma_sqrt_floor_unique(0, 0);
}

/// The square root of `x`, rounded down, found by bisection.
pub fn sqrt_floor_u64(x: u64) -> (r: u64)
    ensures
        r == sqrt_floor(x as nat),
        is_sqrt_floor(x as nat, r as nat),
        r <= 0xffff_ffff,
{
    let mut low: u64 = 0;
    let mut high: u64 = 0x1_0000_0000;
    while high - low > 1
        invariant
            low < high <= 0x1_0000_0000,
            low * low <= x < high * high,
        decreases high - low,
    {
        let middle: u64 = low + (high - low) / 2;
        assert(middle * middle <= 0xffff_ffff * 0xffff_ffff) by (nonlinear_arith)
            requires
                middle <= 0xffff_ffff,
        ;
        if middle * middle <= x {
            low = middle;
        } else {
            high = middle;
        }
    }
    proof {
        lemma_sqrt_floor_unique(x as nat, low as nat);
    }
    low
}

/// The square root of a number that is at most `bound * bound` is at most
/// `bound`.
pub proof fn lemma_sqrt_floor_bounded(x: nat, bound: nat)
    requires
        x <= bound * bound,
    ensures
        is_sqrt_floor(x, sqrt_floor(x)),
        sqrt_floor(x) <= bound,
{
    lemma_sqrt_floor_exists(x);
    let r = sqrt_floor(x);
    if r > bound {
        lemma_square_monotonic(bound + 1, r);
        assert((bound + 1) * (bound + 1) > bound * bound) by (nonlinear_arith);
    }
}

/// Every natural number has a rounded-down square root.
pub proof fn lemma_sqrt_floor_exists(x: nat)
    ensures
        is_sqrt_floor(x, sqrt_floor(x)),
    decreases x,
{
    if x == 0 {
        assert(0nat * 0nat == 0 && (0nat + 1) * (0nat + 1) == 1) by (nonlinear_arith);
        assert(is_sqrt_floor(0, 0));
    } else {
        lemma_sqrt_floor_exists((x - 1) as nat);
        let r = sqrt_floor((x - 1) as nat);
        if x < (r + 1) * (r + 1) {
            assert(is_sqrt_floor(x, r));
        } else {
            assert((r + 2) * (r + 2) > (r + 1) * (r + 1)) by (nonlinear_arith);
            assert(is_sqrt_floor(x, r + 1));
        }
    }
}

/// A quotient is no more than `bound` when the dividend is no more than
/// `bound` times the divisor.
pub proof fn lemma_quotient_bounded(dividend: nat, divisor: nat, bound: nat)
    requires
        divisor > 0,
        dividend <= bound * divisor,
    ensures
        dividend / divisor <= bound,
{
    vstd::arithmetic::div_mod::lemma_div_is_ordered(
        dividend as int,
        (bound * divisor) as int,
        divisor as int,
    );
    vstd::arithmetic::div_mod::lemma_div_by_multiple(bound as int, divisor as int);
}

} // verus!
