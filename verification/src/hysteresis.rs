//! Hysteresis bounds: a dead band around the last settled value.
//!
//! A sample is first clamped into the hard bounds. While the clamped sample
//! stays inside the dead band the settled value is kept, so jitter inside the
//! band never shows. A clamped sample outside the band becomes the new settled
//! value, and the band is centred on it again.
//!
//! The ends of the band are computed with wrapping arithmetic. Where
//! `settled - margin` or `settled + margin` leaves the range of a sample, the
//! band wraps. With a margin of less than half the range of a sample its low
//! end then lies above its high end, nothing is inside it, and every sample is
//! taken over.

use vstd::prelude::*;
use vstd::wrapping::u16_specs::{wrapping_add, wrapping_sub};

verus! {

/// `value` clamped into `low ..= high`.
pub open spec fn clamped(value: u16, low: u16, high: u16) -> u16 {
    if value < low {
        low
    } else if value > high {
        high
    } else {
        value
    }
}

/// The low end of the dead band around `settled`.
pub open spec fn band_low(settled: u16, margin: u16) -> u16 {
    wrapping_sub(settled, margin)
}

/// The high end of the dead band around `settled`.
pub open spec fn band_high(settled: u16, margin: u16) -> u16 {
    wrapping_add(settled, margin)
}

/// Whether `value` lies in the dead band around `settled`.
pub open spec fn in_band(value: u16, settled: u16, margin: u16) -> bool {
    band_low(settled, margin) <= value <= band_high(settled, margin)
}

/// Whether the dead band around `settled` wraps.
pub open spec fn band_wraps(settled: u16, margin: u16) -> bool {
    settled < margin || settled + margin > u16::MAX
}

/// The settled value after `input`: unchanged while the clamped input is in
/// the dead band, the clamped input otherwise.
pub open spec fn resettled(settled: u16, margin: u16, hard_low: u16, hard_high: u16, input: u16) -> u16 {
    let bounded = clamped(input, hard_low, hard_high);
    if in_band(bounded, settled, margin) {
        settled
    } else {
        bounded
    }
}

/// Dead-band filter with hard bounds.
pub struct HysteresisBounds {
    margin: u16,
    hard_low: u16,
    hard_high: u16,
    value: u16,
    low: u16,
    high: u16,
}

impl HysteresisBounds {
    /// Half the width of the dead band.
    pub closed spec fn margin(&self) -> u16 {
        self.margin
    }

    /// The lowest value that is ever settled on.
    pub closed spec fn hard_low(&self) -> u16 {
        self.hard_low
    }

    /// The highest value that is ever settled on.
    pub closed spec fn hard_high(&self) -> u16 {
        self.hard_high
    }

    /// The last settled value.
    pub closed spec fn settled(&self) -> u16 {
        self.value
    }

    /// The hard bounds are an interval that holds the settled value, and the
    /// dead band is centred on the settled value.
    pub closed spec fn wf(&self) -> bool {
        &&& self.hard_low <= self.value <= self.hard_high
        &&& self.low == band_low(self.value, self.margin)
        &&& self.high == band_high(self.value, self.margin)
    }

    /// Bounds that start settled on `hard_low`.
    pub fn new(margin: u16, hard_low: u16, hard_high: u16) -> (bounds: Self)
        requires
            hard_low <= hard_high,
        ensures
            bounds.wf(),
            bounds.margin() == margin,
            bounds.hard_low() == hard_low,
            bounds.hard_high() == hard_high,
            bounds.settled() == hard_low,
    {
        HysteresisBounds {
            margin,
            hard_low,
            hard_high,
            value: hard_low,
            low: hard_low.wrapping_sub(margin),
            high: hard_low.wrapping_add(margin),
        }
    }

    /// Takes a sample and returns the settled value after it.
    pub fn apply(&mut self, value: u16) -> (settled: u16)
        requires
            old(self).wf(),
        ensures
            final(self).wf(),
            final(self).margin() == old(self).margin(),
            final(self).hard_low() == old(self).hard_low(),
            final(self).hard_high() == old(self).hard_high(),
            settled == final(self).settled(),
            settled == resettled(
                old(self).settled(),
                old(self).margin(),
                old(self).hard_low(),
                old(self).hard_high(),
                value,
            ),
    {
        let bounded: u16 = if value < self.hard_low {
            self.hard_low
        } else if value > self.hard_high {
            self.hard_high
        } else {
            value
        };
        if bounded < self.low || bounded > self.high {
            self.value = bounded;
            self.low = bounded.wrapping_sub(self.margin);
            self.high = bounded.wrapping_add(self.margin);
        }
        self.value
    }

    /// The last settled value.
    pub fn value(&self) -> (settled: u16)
        ensures
            settled == self.settled(),
    {
        self.value
    }
}

/// Where the dead band does not wrap, an input inside
/// `settled - margin ..= settled + margin` leaves the settled value as it is,
/// and an input whose clamped value is outside of it makes that clamped value
/// the settled one.
pub proof fn law_dead_band(settled: u16, margin: u16, hard_low: u16, hard_high: u16, input: u16)
    requires
        hard_low <= settled <= hard_high,
        !band_wraps(settled, margin),
    ensures
        settled - margin <= input <= settled + margin ==> resettled(
            settled,
            margin,
            hard_low,
            hard_high,
            input,
        ) == settled,
        !(settled - margin <= clamped(input, hard_low, hard_high) <= settled + margin) ==> resettled(
            settled,
            margin,
            hard_low,
            hard_high,
            input,
        ) == clamped(input, hard_low, hard_high),
        !(settled - margin <= input <= settled + margin) && hard_low <= input <= hard_high
            ==> resettled(settled, margin, hard_low, hard_high, input) == input,
{
}

/// Where the dead band wraps and the margin is less than half the range of a
/// sample, nothing is inside the band: every input is clamped and taken over.
pub proof fn law_wrapped_band_takes_every_input(
    settled: u16,
    margin: u16,
    hard_low: u16,
    hard_high: u16,
    input: u16,
)
    requires
        band_wraps(settled, margin),
        2 * margin <= u16::MAX,
    ensures
        band_low(settled, margin) > band_high(settled, margin),
        resettled(settled, margin, hard_low, hard_high, input) == clamped(input, hard_low, hard_high),
{
}

/// The settled value never leaves the hard bounds.
pub proof fn law_settled_stays_in_hard_bounds(
    settled: u16,
    margin: u16,
    hard_low: u16,
    hard_high: u16,
    input: u16,
)
    requires
        hard_low <= settled <= hard_high,
    ensures
        hard_low <= resettled(settled, margin, hard_low, hard_high, input) <= hard_high,
{
}

} // verus!
