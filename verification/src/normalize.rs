//! Normalization: a filtered value clamped into `min ..= max` and mapped
//! linearly onto `0 ..= norm_max`.

use vstd::prelude::*;

verus! {

/// `value` clamped into `low ..= high`.
pub open spec fn clamp(value: int, low: int, high: int) -> int {
    if value < low {
        low
    } else if value > high {
        high
    } else {
        value
    }
}

/// The normalized value: the clamped value's distance from `min`, scaled so
/// that `max` comes out as `norm_max`, rounded down.
pub open spec fn normalized(value: int, min: int, max: int, norm_max: int) -> int {
    (clamp(value, min, max) - min) * norm_max / (max - min)
}

/// The range that filtered values are clamped into and the range that they
/// are mapped onto.
pub struct Normalizer {
    min: u32,
    max: u32,
    norm_max: u32,
}

impl Normalizer {
    /// The filtered value that maps to zero.
    pub closed spec fn min(&self) -> u32 {
        self.min
    }

    /// The filtered value that maps to `norm_max`.
    pub closed spec fn max(&self) -> u32 {
        self.max
    }

    /// The highest normalized value.
    pub closed spec fn norm_max(&self) -> u32 {
        self.norm_max
    }

    /// The input range is not empty and not a single point.
    pub open spec fn wf(&self) -> bool {
        self.min() < self.max()
    }

    /// The mapping of `min ..= max` onto `0 ..= norm_max`.
    pub fn new(min: u32, max: u32, norm_max: u32) -> (normalizer: Self)
        requires
            min < max,
        ensures
            normalizer.wf(),
            normalizer.min() == min,
            normalizer.max() == max,
            normalizer.norm_max() == norm_max,
    {
        Normalizer { min, max, norm_max }
    }

    /// Clamps and scales a filtered value.
    pub fn normalize(&self, filtered: u32) -> (value: u32)
        requires
            self.wf(),
        ensures
            value == normalized(
                filtered as int,
                self.min() as int,
                self.max() as int,
                self.norm_max() as int,
            ),
            value <= self.norm_max(),
    {
        let clamped: u32 = if filtered < self.min {
            self.min
        } else if filtered > self.max {
            self.max
        } else {
            filtered
        };
        let offset: u64 = (clamped - self.min) as u64;
        let span: u64 = (self.max - self.min) as u64;
        proof {
            law_normalized_in_range(
                filtered as int,
                self.min as int,
                self.max as int,
                self.norm_max as int,
            );
            assert(offset * self.norm_max <= span * self.norm_max <= 0xFFFF_FFFF * 0xFFFF_FFFF)
                by (nonlinear_arith)
                requires
                    offset <= span <= 0xFFFF_FFFF,
                    self.norm_max <= 0xFFFF_FFFF,
            ;
        }
        (offset * self.norm_max as u64 / span) as u32
    }
}

/// A normalized value lies in `0 ..= norm_max`.
pub proof fn law_normalized_in_range(value: int, min: int, max: int, norm_max: int)
    requires
        min < max,
        0 <= norm_max,
    ensures
        0 <= normalized(value, min, max, norm_max) <= norm_max,
{
    let offset = clamp(value, min, max) - min;
    let span = max - min;
    assert(0 <= offset * norm_max / span <= norm_max) by (nonlinear_arith)
        requires
            0 <= offset <= span,
            0 < span,
            0 <= norm_max,
    ;
}

/// `min` maps to zero and `max` to `norm_max`, exactly.
pub proof fn law_normalized_end_points(min: int, max: int, norm_max: int)
    requires
        min < max,
    ensures
        normalized(min, min, max, norm_max) == 0,
        normalized(max, min, max, norm_max) == norm_max,
{
    let span = max - min;
    assert(0 * norm_max / span == 0) by (nonlinear_arith)
        requires
            span > 0,
    ;
    assert(span * norm_max / span == norm_max) by (nonlinear_arith)
        requires
            span > 0,
    ;
}

/// Values outside `min ..= max` are clamped before they are scaled: what lies
/// below `min` maps as `min` does, what lies above `max` as `max` does.
pub proof fn law_normalized_clamps(value: int, min: int, max: int, norm_max: int)
    requires
        min < max,
    ensures
        value <= min ==> normalized(value, min, max, norm_max) == 0,
        value >= max ==> normalized(value, min, max, norm_max) == norm_max,
{
    law_normalized_end_points(min, max, norm_max);
}

/// A larger filtered value never maps to a smaller normalized one.
pub proof fn law_normalized_is_monotone(low: int, high: int, min: int, max: int, norm_max: int)
    requires
        min < max,
        0 <= norm_max,
        low <= high,
    ensures
        normalized(low, min, max, norm_max) <= normalized(high, min, max, norm_max),
{
    let a = clamp(low, min, max) - min;
    let b = clamp(high, min, max) - min;
    let span = max - min;
    assert(a * norm_max / span <= b * norm_max / span) by (nonlinear_arith)
        requires
            0 <= a <= b,
            0 < span,
            0 <= norm_max,
    ;
}

} // verus!
