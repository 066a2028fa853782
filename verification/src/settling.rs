//! How the exponential smoother settles when it is fed a constant.
//!
//! Fed the same target again and again, the level moves towards the target
//! and never past it. From above it reaches the target. From below the
//! rounding of each update stops it short: it comes to rest in a band of
//! `GEOMETRIC_MULTIPLIER / weight` under the target. The part of the way that
//! the updates still take off at least halves every `1 / w` updates, and is
//! gone after 64 such periods.

use crate::geometric::{blend, blend_repeated, GEOMETRIC_MULTIPLIER};
use vstd::arithmetic::power::pow;
use vstd::prelude::*;

verus! {

/// What is left of the way to the target, in parts of `1 / weight`.
///
/// Above the target it is the whole gap. Below the target it is the gap less
/// the band in which rounding brings the level to rest.
pub open spec fn unsettled(level: int, target: int, weight: int) -> int {
    if level >= target {
        (level - target) * weight
    } else if (target - level) * weight >= GEOMETRIC_MULTIPLIER {
        (target - level) * weight - GEOMETRIC_MULTIPLIER
    } else {
        0
    }
}

/// A level that has nothing left to settle: it is the target, or it rests
/// under the target within the band that rounding leaves.
pub open spec fn settled(level: int, target: int, weight: int) -> bool {
    level == target || (level < target && (target - level) * weight <= GEOMETRIC_MULTIPLIER)
}

/// Fed a constant, the level moves monotonically towards the target and does
/// not overshoot: every level lies between the one before it and the target.
pub proof fn law_constant_feed_is_monotone(level: int, target: int, weight: int, count: nat)
    requires
        0 <= weight <= GEOMETRIC_MULTIPLIER,
    ensures
        level <= target ==> level <= blend_repeated(level, target, weight, count)
            <= blend_repeated(level, target, weight, count + 1) <= target,
        level >= target ==> level >= blend_repeated(level, target, weight, count)
            >= blend_repeated(level, target, weight, count + 1) >= target,
    decreases count,
{
    if count > 0 {
        law_constant_feed_is_monotone(level, target, weight, (count - 1) as nat);
    }
    crate::geometric::lemma_blend_between(
        blend_repeated(level, target, weight, count),
        target,
        weight,
    );
}

/// Feeding `first + second` times is feeding `first` times and then `second`
/// times.
pub proof fn lemma_blend_repeated_splits(
    level: int,
    target: int,
    weight: int,
    first: nat,
    second: nat,
)
    ensures
        blend_repeated(level, target, weight, first + second) == blend_repeated(
            blend_repeated(level, target, weight, first),
            target,
            weight,
            second,
        ),
    decreases second,
{
    if second > 0 {
        lemma_blend_repeated_splits(level, target, weight, first, (second - 1) as nat);
        assert((first + second - 1) as nat == first + (second - 1) as nat);
    }
}

/// What is left to settle is never negative.
proof fn lemma_unsettled_nonnegative(level: int, target: int, weight: int)
    requires
        0 <= weight,
    ensures
        0 <= unsettled(level, target, weight),
{
    if level >= target {
        assert(0 <= (level - target) * weight) by (nonlinear_arith)
            requires
                0 <= level - target,
                0 <= weight,
        ;
    }
}

/// One update takes at least the part `weight / GEOMETRIC_MULTIPLIER` off what
/// is left to settle.
pub proof fn lemma_unsettled_decays(level: int, target: int, weight: int)
    requires
        0 <= weight <= GEOMETRIC_MULTIPLIER,
    ensures
        unsettled(blend(level, target, weight), target, weight) * GEOMETRIC_MULTIPLIER
            <= unsettled(level, target, weight) * (GEOMETRIC_MULTIPLIER - weight),
{
    let m = GEOMETRIC_MULTIPLIER as int;
    let rest = m - weight;
    let sum = level * rest + target * weight;
    let next = blend(level, target, weight);
    let r = sum % m;
    assert(sum == m * next + r && 0 <= r < m) by {
        vstd::arithmetic::div_mod::lemma_fundamental_div_mod(sum, m);
        vstd::arithmetic::div_mod::lemma_mod_bound(sum, m);
    }
    crate::geometric::lemma_blend_between(level, target, weight);
    if level >= target {
        let before = level - target;
        let after = next - target;
        assert(after * m <= before * rest) by (nonlinear_arith)
            requires
                sum == level * rest + target * weight,
                sum == m * next + r,
                0 <= r,
                rest + weight == m,
                before == level - target,
                after == next - target,
        ;
        assert((after * weight) * m <= (before * weight) * rest) by (nonlinear_arith)
            requires
                after * m <= before * rest,
                0 <= weight,
        ;
    } else {
        let before = target - level;
        let after = target - next;
        lemma_unsettled_nonnegative(level, target, weight);
        assert(0 <= unsettled(level, target, weight) * rest) by (nonlinear_arith)
            requires
                0 <= unsettled(level, target, weight),
                0 <= rest,
        ;
        if next == target {
            assert((next - target) * weight == 0) by (nonlinear_arith)
                requires
                    next == target,
            ;
        } else if after * weight >= m {
            assert(before * weight >= after * weight) by (nonlinear_arith)
                requires
                    before >= after,
                    0 <= weight,
            ;
            assert(after * m <= before * rest + m - 1) by (nonlinear_arith)
                requires
                    sum == level * rest + target * weight,
                    sum == m * next + r,
                    r <= m - 1,
                    rest + weight == m,
                    before == target - level,
                    after == target - next,
            ;
            assert((after * weight - m) * m <= (before * weight - m) * rest) by (nonlinear_arith)
                requires
                    after * m <= before * rest + m - 1,
                    rest + weight == m,
                    0 <= weight,
            ;
        }
    }
}

/// After `count` updates what is left to settle has shrunk by the factor
/// `(1 - w)` to the power `count`.
pub proof fn lemma_unsettled_after(level: int, target: int, weight: int, count: nat)
    requires
        0 <= weight <= GEOMETRIC_MULTIPLIER,
    ensures
        unsettled(blend_repeated(level, target, weight, count), target, weight) * pow(
            GEOMETRIC_MULTIPLIER as int,
            count,
        ) <= unsettled(level, target, weight) * pow(GEOMETRIC_MULTIPLIER - weight, count),
    decreases count,
{
    let m = GEOMETRIC_MULTIPLIER as int;
    let rest = m - weight;
    let start = unsettled(level, target, weight);
    if count == 0 {
        vstd::arithmetic::power::lemma_pow0(m);
        vstd::arithmetic::power::lemma_pow0(rest);
    } else {
        let less = (count - 1) as nat;
        let earlier = blend_repeated(level, target, weight, less);
        let before = unsettled(earlier, target, weight);
        let after = unsettled(blend(earlier, target, weight), target, weight);
        let pm = pow(m, less);
        let pr = pow(rest, less);
        lemma_unsettled_after(level, target, weight, less);
        lemma_unsettled_decays(earlier, target, weight);
        vstd::arithmetic::power::lemma_pow_positive(m, less);
        assert(pow(m, count) == m * pm && pow(rest, count) == rest * pr) by {
            reveal(pow);
        }
        assert(after * (m * pm) <= start * (rest * pr)) by (nonlinear_arith)
            requires
                after * m <= before * rest,
                before * pm <= start * pr,
                0 < pm,
                0 <= rest,
        ;
    }
}

/// Over `count` updates with `count * w >= 1` the factor `(1 - w)` to the
/// power `count` is at most one half.
pub proof fn lemma_decay_halves(weight: int, count: nat)
    requires
        0 < weight <= GEOMETRIC_MULTIPLIER,
        count * weight >= GEOMETRIC_MULTIPLIER,
    ensures
        2 * pow(GEOMETRIC_MULTIPLIER - weight, count) <= pow(GEOMETRIC_MULTIPLIER as int, count),
        0 <= pow(GEOMETRIC_MULTIPLIER - weight, count),
{
    let m = GEOMETRIC_MULTIPLIER as int;
    let rest = m - weight;
    let pm = pow(m, count);
    let pr = pow(rest, count);
    assert(count > 0) by (nonlinear_arith)
        requires
            count * weight >= m,
            m > 0,
    ;
    vstd::arithmetic::power::lemma_pow_positive(m, count);
    if rest == 0 {
        vstd::arithmetic::power::lemma0_pow(count);
    } else {
        vstd::arithmetic::power::lemma_pow_positive(rest, count);
        lemma_decay_is_harmonic(weight, count);
        assert(2 * pr <= pm) by (nonlinear_arith)
            requires
                pr * (rest + count * weight) <= pm * rest,
                count * weight >= m,
                rest + weight == m,
                0 < rest,
                0 < pr,
                0 < weight,
        ;
    }
}

/// The factor `(1 - w)` to the power `count` is at most `1 / (1 + count * w)`,
/// with `1 - w` taken out of both sides.
proof fn lemma_decay_is_harmonic(weight: int, count: nat)
    requires
        0 <= weight <= GEOMETRIC_MULTIPLIER,
    ensures
        pow(GEOMETRIC_MULTIPLIER - weight, count) * ((GEOMETRIC_MULTIPLIER - weight) + count
            * weight) <= pow(GEOMETRIC_MULTIPLIER as int, count) * (GEOMETRIC_MULTIPLIER - weight),
    decreases count,
{
    let m = GEOMETRIC_MULTIPLIER as int;
    let rest = m - weight;
    if count == 0 {
        vstd::arithmetic::power::lemma_pow0(m);
        vstd::arithmetic::power::lemma_pow0(rest);
    } else {
        let less = (count - 1) as nat;
        let pm = pow(m, less);
        let pr = pow(rest, less);
        lemma_decay_is_harmonic(weight, less);
        vstd::arithmetic::power::lemma_pow_positive(m, less);
        if rest == 0 {
            vstd::arithmetic::power::lemma0_pow(count);
            assert(pow(rest, count) * (rest + count * weight) == 0) by (nonlinear_arith)
                requires
                    pow(rest, count) == 0,
            ;
            assert(pow(m, count) * rest == 0) by (nonlinear_arith)
                requires
                    rest == 0,
            ;
        } else {
            vstd::arithmetic::power::lemma_pow_positive(rest, less);
            assert(pow(m, count) == m * pm && pow(rest, count) == rest * pr) by {
                reveal(pow);
            }
            assert((rest * pr) * (rest + count * weight) <= (m * pm) * rest) by (nonlinear_arith)
                requires
                    pr * (rest + less * weight) <= pm * rest,
                    less == count - 1,
                    rest + weight == m,
                    0 < rest,
                    0 <= weight,
                    0 < pr,
                    0 < pm,
            ;
        }
    }
}

/// Over a period of `1 / w` updates what is left to settle at least halves.
pub proof fn law_unsettled_halves(level: int, target: int, weight: int, period: nat)
    requires
        0 < weight <= GEOMETRIC_MULTIPLIER,
        period * weight >= GEOMETRIC_MULTIPLIER,
    ensures
        2 * unsettled(blend_repeated(level, target, weight, period), target, weight) <= unsettled(
            level,
            target,
            weight,
        ),
{
    let m = GEOMETRIC_MULTIPLIER as int;
    let rest = m - weight;
    let start = unsettled(level, target, weight);
    let end = unsettled(blend_repeated(level, target, weight, period), target, weight);
    let pm = pow(m, period);
    let pr = pow(rest, period);
    lemma_unsettled_after(level, target, weight, period);
    lemma_decay_halves(weight, period);
    lemma_unsettled_nonnegative(level, target, weight);
    lemma_unsettled_nonnegative(blend_repeated(level, target, weight, period), target, weight);
    vstd::arithmetic::power::lemma_pow_positive(m, period);
    assert(2 * end <= start) by (nonlinear_arith)
        requires
            end * pm <= start * pr,
            2 * pr <= pm,
            0 <= pr,
            0 < pm,
            0 <= end,
            0 <= start,
    ;
}

/// Further updates never add to what is left to settle.
pub proof fn lemma_unsettled_never_grows(level: int, target: int, weight: int, count: nat)
    requires
        0 <= weight <= GEOMETRIC_MULTIPLIER,
    ensures
        0 <= unsettled(blend_repeated(level, target, weight, count), target, weight) <= unsettled(
            level,
            target,
            weight,
        ),
    decreases count,
{
    lemma_unsettled_nonnegative(level, target, weight);
    if count > 0 {
        let earlier = blend_repeated(level, target, weight, (count - 1) as nat);
        let before = unsettled(earlier, target, weight);
        let after = unsettled(blend(earlier, target, weight), target, weight);
        let m = GEOMETRIC_MULTIPLIER as int;
        lemma_unsettled_never_grows(level, target, weight, (count - 1) as nat);
        lemma_unsettled_decays(earlier, target, weight);
        lemma_unsettled_nonnegative(blend(earlier, target, weight), target, weight);
        assert(after <= before) by (nonlinear_arith)
            requires
                after * m <= before * (m - weight),
                0 <= weight,
                0 <= before,
                0 < m,
        ;
    }
}

/// After `rounds` periods of `1 / w` updates what is left to settle is at most
/// the part `1 / 2^rounds` of what it was.
pub proof fn lemma_unsettled_after_periods(
    level: int,
    target: int,
    weight: int,
    period: nat,
    rounds: nat,
)
    requires
        0 < weight <= GEOMETRIC_MULTIPLIER,
        period * weight >= GEOMETRIC_MULTIPLIER,
    ensures
        pow(2, rounds) * unsettled(
            blend_repeated(level, target, weight, rounds * period),
            target,
            weight,
        ) <= unsettled(level, target, weight),
    decreases rounds,
{
    if rounds == 0 {
        vstd::arithmetic::power::lemma_pow0(2);
        assert(rounds * period == 0) by (nonlinear_arith)
            requires
                rounds == 0,
        ;
    } else {
        let less = (rounds - 1) as nat;
        let earlier = blend_repeated(level, target, weight, less * period);
        let before = unsettled(earlier, target, weight);
        let after = unsettled(blend_repeated(earlier, target, weight, period), target, weight);
        lemma_unsettled_after_periods(level, target, weight, period, less);
        law_unsettled_halves(earlier, target, weight, period);
        lemma_blend_repeated_splits(level, target, weight, less * period, period);
        assert(less * period + period == rounds * period) by (nonlinear_arith)
            requires
                less == rounds - 1,
        ;
        vstd::arithmetic::power::lemma_pow_positive(2, less);
        assert(pow(2, rounds) == 2 * pow(2, less)) by {
            reveal(pow);
        }
        assert((2 * pow(2, less)) * after <= unsettled(level, target, weight)) by (nonlinear_arith)
            requires
                2 * after <= before,
                pow(2, less) * before <= unsettled(level, target, weight),
                0 < pow(2, less),
        ;
    }
}

/// Fed a constant, the smoother settles within a number of updates that is
/// proportional to `1 / w`: after 64 periods of `1 / w` updates, and from then
/// on, a level that started above the target is the target, and a level that
/// started below it rests under the target within the band that rounding
/// leaves.
pub proof fn law_constant_feed_settles(
    level: int,
    target: int,
    weight: int,
    period: nat,
    count: nat,
)
    requires
        0 <= level <= u32::MAX,
        0 <= target <= u32::MAX,
        0 < weight <= GEOMETRIC_MULTIPLIER,
        period * weight >= GEOMETRIC_MULTIPLIER,
        count >= 64 * period,
    ensures
        settled(blend_repeated(level, target, weight, count), target, weight),
        level >= target ==> blend_repeated(level, target, weight, count) == target,
        level <= target ==> blend_repeated(level, target, weight, count) <= target,
{
    let start = unsettled(level, target, weight);
    let turning = blend_repeated(level, target, weight, 64 * period);
    let extra = (count - 64 * period) as nat;
    let end = blend_repeated(level, target, weight, count);
    assert(start < 0x1_0000_0000_0000_0000) by (nonlinear_arith)
        requires
            start == unsettled(level, target, weight),
            0 <= level <= 0xFFFF_FFFF,
            0 <= target <= 0xFFFF_FFFF,
            0 < weight <= 0xFFFF_FFFF,
            GEOMETRIC_MULTIPLIER == 0xFFFF_FFFF,
    ;
    lemma_unsettled_after_periods(level, target, weight, period, 64);
    assert(pow(2, 64) == 0x1_0000_0000_0000_0000) by {
        vstd::arithmetic::power2::lemma2_to64();
        vstd::arithmetic::power2::lemma_pow2(64);
    }
    lemma_unsettled_nonnegative(turning, target, weight);
    assert(unsettled(turning, target, weight) == 0);
    lemma_blend_repeated_splits(level, target, weight, 64 * period, extra);
    lemma_unsettled_never_grows(turning, target, weight, extra);
    assert(unsettled(end, target, weight) == 0);
    law_constant_feed_is_monotone(level, target, weight, count);
    if end > target {
        assert((end - target) * weight > 0) by (nonlinear_arith)
            requires
                end - target > 0,
                weight > 0,
        ;
    }
}

} // verus!
