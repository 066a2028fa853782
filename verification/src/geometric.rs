//! Exponential (geometric) smoothing in fixed point.
//!
//! The running level is kept scaled by 2^16 and the weight of a new sample is
//! kept as a fraction of `GEOMETRIC_MULTIPLIER`, so one update is
//! `level <- (level * (1 - w) + sample * w)` with every term an integer.

use vstd::prelude::*;

verus! {

/// Denominator of the fixed-point weight: the weight `w` of a new sample is
/// stored as `w * GEOMETRIC_MULTIPLIER`.
pub const GEOMETRIC_MULTIPLIER: u32 = 0xFFFF_FFFF;

/// Factor by which the running level is scaled.
pub const LEVEL_SCALE: u32 = 0x1_0000;

/// A sample on the scale of the running level.
pub open spec fn scaled(sample: u16) -> int {
    sample * LEVEL_SCALE
}

/// One update of the running level: the weighted mean of the level and the
/// target, `weight` out of `GEOMETRIC_MULTIPLIER` parts going to the target,
/// rounded down.
pub open spec fn blend(level: int, target: int, weight: int) -> int {
    (level * (GEOMETRIC_MULTIPLIER - weight) + target * weight) / (GEOMETRIC_MULTIPLIER as int)
}

/// The level after the same target has been blended in `count` times.
pub open spec fn blend_repeated(level: int, target: int, weight: int, count: nat) -> int
    decreases count,
{
    if count == 0 {
        level
    } else {
        blend(blend_repeated(level, target, weight, (count - 1) as nat), target, weight)
    }
}

/// The weight `numerator / denominator` as a fraction of
/// `GEOMETRIC_MULTIPLIER`, rounded to the nearest integer (a half rounds up).
pub open spec fn scaled_weight(numerator: int, denominator: int) -> int {
    (2 * numerator * GEOMETRIC_MULTIPLIER + denominator) / (2 * denominator)
}

/// Exponential smoother over 16-bit samples.
pub struct GeometricFilter {
    value: u32,
    weight_new: u32,
}

impl GeometricFilter {
    /// The running level, scaled by `LEVEL_SCALE`.
    pub closed spec fn level(&self) -> u32 {
        self.value
    }

    /// The weight of a new sample, out of `GEOMETRIC_MULTIPLIER`.
    pub closed spec fn weight(&self) -> u32 {
        self.weight_new
    }

    /// A smoother that gives a new sample `weight_new / GEOMETRIC_MULTIPLIER`
    /// of the level and starts at `value`.
    pub fn new(weight_new: u32, value: u16) -> (filter: Self)
        ensures
            filter.weight() == weight_new,
            filter.level() == scaled(value),
    {
        assert((value as u32) << 16 == value as u32 * 0x1_0000) by (bit_vector);
        GeometricFilter { value: (value as u32) << 16, weight_new }
    }

    /// The fixed-point weight for the ratio `numerator / denominator`.
    pub fn weight_from_ratio(numerator: u32, denominator: u32) -> (weight: u32)
        requires
            0 < numerator < denominator,
        ensures
            weight == scaled_weight(numerator as int, denominator as int),
            0 < weight <= GEOMETRIC_MULTIPLIER,
    {
        let multiplier: u64 = GEOMETRIC_MULTIPLIER as u64;
        assert(numerator as u64 * multiplier <= 0xFFFF_FFFF * 0xFFFF_FFFF) by (nonlinear_arith)
            requires
                numerator <= 0xFFFF_FFFF,
                multiplier == 0xFFFF_FFFF,
        ;
        let product: u64 = numerator as u64 * multiplier;
        let quotient: u64 = product / denominator as u64;
        let remainder: u64 = product % denominator as u64;
        proof {
            lemma_rounded_quotient(product as int, denominator as int);
            assert(product < denominator * multiplier) by (nonlinear_arith)
                requires
                    product == numerator * multiplier,
                    numerator < denominator,
                    multiplier > 0,
            ;
            assert(quotient < multiplier) by (nonlinear_arith)
                requires
                    quotient == product / (denominator as u64),
                    product < denominator * multiplier,
                    denominator > 0,
            ;
            assert(2 * numerator * GEOMETRIC_MULTIPLIER == 2 * product) by (nonlinear_arith)
                requires
                    product == numerator * multiplier,
                    multiplier == GEOMETRIC_MULTIPLIER,
            ;
            assert(quotient > 0 || 2 * remainder >= denominator) by (nonlinear_arith)
                requires
                    quotient == product / (denominator as u64),
                    remainder == product % (denominator as u64),
                    product == numerator * multiplier,
                    numerator >= 1,
                    multiplier == 0xFFFF_FFFF,
                    0 < denominator <= 0xFFFF_FFFF,
            ;
        }
        if 2 * remainder >= denominator as u64 {
            (quotient + 1) as u32
        } else {
            quotient as u32
        }
    }

    /// Blends one sample into the running level.
    pub fn add(&mut self, value: u16)
        ensures
            final(self).weight() == old(self).weight(),
            final(self).level() == blend(
                old(self).level() as int,
                scaled(value),
                old(self).weight() as int,
            ),
    {
        let weight_actual: u32 = GEOMETRIC_MULTIPLIER - self.weight_new;
        let target: u64 = (value as u64) << 16;
        assert((value as u64) << 16 == value as u64 * 0x1_0000) by (bit_vector);
        proof {
            lemma_blend_between(self.value as int, target as int, self.weight_new as int);
            lemma_parts_fit(self.value as int, target as int, self.weight_new as int);
        }
        let actual_part: u64 = self.value as u64 * weight_actual as u64;
        let new_part: u64 = target * self.weight_new as u64;
        let new_value: u64 = (actual_part + new_part) / GEOMETRIC_MULTIPLIER as u64;
        self.value = new_value as u32;
    }

    /// The running level as a sample: its integer part.
    pub fn get_average(&self) -> (average: u16)
        ensures
            average == self.level() / LEVEL_SCALE,
    {
        let level: u32 = self.value;
        assert(level >> 16 == level / 0x1_0000) by (bit_vector);
        assert(level >> 16 <= 0xFFFF) by (bit_vector);
        (level >> 16) as u16
    }
}

/// Rounding to nearest by looking at the remainder.
proof fn lemma_rounded_quotient(x: int, d: int)
    requires
        0 <= x,
        0 < d,
    ensures
        (2 * x + d) / (2 * d) == if 2 * (x % d) >= d {
            x / d + 1
        } else {
            x / d
        },
{
    let q = x / d;
    let r = x % d;
    assert(x == d * q + r && 0 <= r < d) by {
        vstd::arithmetic::div_mod::lemma_fundamental_div_mod(x, d);
        vstd::arithmetic::div_mod::lemma_mod_bound(x, d);
    }
    if 2 * r >= d {
        assert(2 * x + d == (2 * d) * (q + 1) + (2 * r - d)) by (nonlinear_arith)
            requires
                x == d * q + r,
        ;
        vstd::arithmetic::div_mod::lemma_fundamental_div_mod_converse(
            2 * x + d,
            2 * d,
            q + 1,
            2 * r - d,
        );
    } else {
        assert(2 * x + d == (2 * d) * q + (2 * r + d)) by (nonlinear_arith)
            requires
                x == d * q + r,
        ;
        vstd::arithmetic::div_mod::lemma_fundamental_div_mod_converse(
            2 * x + d,
            2 * d,
            q,
            2 * r + d,
        );
    }
}

/// The two products of one update and their sum fit in 64 bits.
proof fn lemma_parts_fit(level: int, target: int, weight: int)
    requires
        0 <= level <= u32::MAX,
        0 <= target <= u32::MAX,
        0 <= weight <= GEOMETRIC_MULTIPLIER,
    ensures
        0 <= level * (GEOMETRIC_MULTIPLIER - weight),
        0 <= target * weight,
        level * (GEOMETRIC_MULTIPLIER - weight) + target * weight <= u64::MAX,
{
    let rest = GEOMETRIC_MULTIPLIER - weight;
    assert(0 <= level * rest <= 0xFFFF_FFFF * rest) by (nonlinear_arith)
        requires
            0 <= level <= 0xFFFF_FFFF,
            0 <= rest,
    ;
    assert(0 <= target * weight <= 0xFFFF_FFFF * weight) by (nonlinear_arith)
        requires
            0 <= target <= 0xFFFF_FFFF,
            0 <= weight,
    ;
}

/// One update lands between the old level and the target, both included: the
/// level moves towards the target and never past it.
pub proof fn lemma_blend_between(level: int, target: int, weight: int)
    requires
        0 <= weight <= GEOMETRIC_MULTIPLIER,
    ensures
        level <= target ==> level <= blend(level, target, weight) <= target,
        level >= target ==> target <= blend(level, target, weight) <= level,
{
    let m = GEOMETRIC_MULTIPLIER as int;
    let rest = m - weight;
    let sum = level * rest + target * weight;
    if level <= target {
        assert(level * m <= sum <= target * m) by (nonlinear_arith)
            requires
                sum == level * rest + target * weight,
                rest + weight == m,
                0 <= weight,
                0 <= rest,
                level <= target,
        ;
    }
    if level >= target {
        assert(target * m <= sum <= level * m) by (nonlinear_arith)
            requires
                sum == level * rest + target * weight,
                rest + weight == m,
                0 <= weight,
                0 <= rest,
                level >= target,
        ;
    }
}

} // verus!
