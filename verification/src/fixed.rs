//! Decimal fixed-point arithmetic.
//!
//! Every real quantity of this library (a head count, a rate, a ratio, a
//! multiplier, a percentage) is a decimal number with six fractional digits,
//! held as the integer number of millionths. `SCALE` is the number one.
//! Products and quotients round towards zero; nothing is rounded anywhere else.

use vstd::prelude::*;

verus! {

/// The fixed-point representation of 1.0.
pub const SCALE: u64 = 1_000_000;

/// `rate` brought into the closed interval from 0.0 to 1.0.
pub open spec fn clamp_unit(rate: int) -> int {
    if rate < 0 {
        0
    } else if rate > SCALE {
        SCALE as int
    } else {
        rate
    }
}

/// The product `amount × factor` of two fixed-point numbers, rounded down.
pub open spec fn scaled(amount: int, factor: int) -> int {
    (amount * factor) / (SCALE as int)
}

/// The part of `amount` that falls to `weight` when it is split in the
/// proportion `weight : against`, rounded down.
pub open spec fn share(amount: int, weight: int, against: int) -> int {
    (amount * weight) / (weight + against)
}

/// `part / whole × 100` as a fixed-point percentage, rounded down; zero where
/// `whole` is zero.
pub open spec fn percentage(part: int, whole: int) -> int {
    if whole > 0 {
        (part * 100 * SCALE) / whole
    } else {
        0
    }
}

/// The whole number nearest to the fixed-point number `x`, halves away from zero.
pub open spec fn nearest_whole(x: int) -> int {
    if x >= 0 {
        (x + 500_000) / (SCALE as int)
    } else {
        -((-x + 500_000) / (SCALE as int))
    }
}

/// Scaling by a factor between 0.0 and 1.0 yields between nothing and the whole.
pub proof fn lemma_scaled_within(amount: int, factor: int)
    requires
        0 <= amount,
        0 <= factor <= SCALE,
    ensures
        0 <= scaled(amount, factor) <= amount,
{
    assert(0 <= amount * factor <= amount * SCALE) by (nonlinear_arith)
        requires
            0 <= amount,
            0 <= factor <= SCALE,
    ;
    assert(0 <= (amount * factor) / (SCALE as int) <= amount) by (nonlinear_arith)
        requires
            0 <= amount * factor <= amount * SCALE,
            SCALE == 1_000_000,
    ;
}

/// Scaling a non-negative amount by a non-negative factor is non-negative, and
/// zero where either is zero.
pub proof fn lemma_scaled_nonnegative(amount: int, factor: int)
    requires
        0 <= amount,
        0 <= factor,
    ensures
        0 <= scaled(amount, factor),
        amount == 0 || factor == 0 ==> scaled(amount, factor) == 0,
        factor == SCALE ==> scaled(amount, factor) == amount,
{
    assert(0 <= amount * factor) by (nonlinear_arith)
        requires
            0 <= amount,
            0 <= factor,
    ;
    assert(amount == 0 || factor == 0 ==> amount * factor == 0) by (nonlinear_arith);
    assert(0 <= (amount * factor) / (SCALE as int)) by (nonlinear_arith)
        requires
            0 <= amount * factor,
            SCALE == 1_000_000,
    ;
    assert(factor == SCALE ==> (amount * factor) / (SCALE as int) == amount) by (nonlinear_arith)
        requires
            SCALE == 1_000_000,
    ;
}

/// A share lies between nothing and the whole amount.
pub proof fn lemma_share_within(amount: int, weight: int, against: int)
    requires
        0 <= amount,
        0 <= weight,
        0 < against,
    ensures
        0 <= share(amount, weight, against) <= amount,
{
    let d = weight + against;
    assert(0 <= amount * weight <= amount * d) by (nonlinear_arith)
        requires
            0 <= amount,
            0 <= weight,
            d == weight + against,
            0 < against,
    ;
    assert(0 <= (amount * weight) / d <= amount) by (nonlinear_arith)
        requires
            0 <= amount * weight <= amount * d,
            0 < d,
    ;
}

/// Split in equal proportion, the two shares differ by at most one unit of the
/// last fractional digit.
pub proof fn lemma_share_even(amount: int, weight: int)
    requires
        0 <= amount,
        0 < weight,
    ensures
        0 <= (amount - share(amount, weight, weight)) - share(amount, weight, weight) <= 1,
{
    let h = share(amount, weight, weight);
    assert(h == amount / 2) by (nonlinear_arith)
        requires
            h == (amount * weight) / (weight + weight),
            0 < weight,
            0 <= amount,
    ;
}

/// `rate`, and 1.0 where it is more than that.
pub fn clamp_rate(rate: u64) -> (r: u64)
    ensures
        r == clamp_unit(rate as int),
        r <= SCALE,
{
    if rate > SCALE {
        SCALE
    } else {
        rate
    }
}

/// `amount × factor` for a factor of at most 1.0.
pub fn scale_down(amount: u64, factor: u64) -> (r: u64)
    requires
        factor <= SCALE,
    ensures
        r == scaled(amount as int, factor as int),
        r <= amount,
{
    proof {
        lemma_scaled_within(amount as int, factor as int);
        assert(amount * factor <= u64::MAX * SCALE) by (nonlinear_arith)
            requires
                factor <= SCALE,
                amount <= u64::MAX,
        ;
    }
    let wide: u128 = (amount as u128) * (factor as u128);
    (wide / (SCALE as u128)) as u64
}

/// `amount × factor`, held at the largest representable number where the
/// product exceeds it.
pub fn scale_saturating(amount: u64, factor: u64) -> (r: u64)
    ensures
        r == if scaled(amount as int, factor as int) > u64::MAX {
            u64::MAX as int
        } else {
            scaled(amount as int, factor as int)
        },
{
    proof {
        assert(0 <= amount * factor <= u64::MAX * u64::MAX) by (nonlinear_arith)
            requires
                amount <= u64::MAX,
                factor <= u64::MAX,
        ;
    }
    let wide: u128 = (amount as u128) * (factor as u128);
    let q: u128 = wide / (SCALE as u128);
    if q > u64::MAX as u128 {
        u64::MAX
    } else {
        q as u64
    }
}

/// The share of `amount` that falls to `weight` against `against`.
pub fn take_share(amount: u64, weight: u64, against: u64) -> (r: u64)
    requires
        against > 0,
    ensures
        r == share(amount as int, weight as int, against as int),
        r <= amount,
{
    proof {
        lemma_share_within(amount as int, weight as int, against as int);
        assert(0 <= amount * weight <= u64::MAX * u64::MAX) by (nonlinear_arith)
            requires
                amount <= u64::MAX,
                weight <= u64::MAX,
        ;
    }
    let wide: u128 = (amount as u128) * (weight as u128);
    let d: u128 = (weight as u128) + (against as u128);
    (wide / d) as u64
}

/// `part / whole × 100`, zero where `whole` is zero.
pub fn percent_of(part: u64, whole: u64) -> (r: u128)
    ensures
        r == percentage(part as int, whole as int),
{
    if whole == 0 {
        0
    } else {
        let wide: u128 = (part as u128) * 100_000_000u128;
        wide / (whole as u128)
    }
}

/// The whole number nearest to a non-negative fixed-point number.
pub fn round_whole(x: u64) -> (r: u64)
    ensures
        r == nearest_whole(x as int),
        r <= i64::MAX,
{
    let wide: u128 = (x as u128) + 500_000u128;
    (wide / (SCALE as u128)) as u64
}

/// The whole number nearest to a signed fixed-point number.
pub fn round_whole_signed(x: i128) -> (r: i128)
    requires
        -(u64::MAX as int) <= x <= u64::MAX,
    ensures
        r == nearest_whole(x as int),
        i64::MIN < r <= i64::MAX,
{
    if x >= 0 {
        (x + 500_000i128) / 1_000_000i128
    } else {
        -((-x + 500_000i128) / 1_000_000i128)
    }
}

/// The growth from `before` to `after` as a percentage of `before`, rounded
/// towards zero. Growth from nothing is 100 percent, and none where nothing
/// came of nothing.
pub open spec fn growth_percent(before: int, after: int) -> int {
    if before > 0 {
        if after >= before {
            ((after - before) * 100 * SCALE) / before
        } else {
            -(((before - after) * 100 * SCALE) / before)
        }
    } else if after > 0 {
        100 * SCALE
    } else {
        0
    }
}

/// The growth from `before` to `after` as a percentage of `before`.
pub fn growth_rate(before: u64, after: u64) -> (rate: i128)
    ensures
        rate == growth_percent(before as int, after as int),
{
    if before > 0 {
        if after >= before {
            let wide: u128 = ((after - before) as u128) * 100_000_000u128;
            let q: u128 = wide / (before as u128);
            assert(q <= wide);
            q as i128
        } else {
            let wide: u128 = ((before - after) as u128) * 100_000_000u128;
            let q: u128 = wide / (before as u128);
            assert(q <= wide);
            -(q as i128)
        }
    } else if after > 0 {
        100_000_000i128
    } else {
        0
    }
}

} // verus!
