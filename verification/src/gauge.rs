//! Bar gauges: the geometry of an outlined track and of its filled part.

use vstd::prelude::*;

verus! {

/// The width of the filled part of a track of `track_width` that shows
/// `value` out of `max_value`, rounded down.
pub open spec fn fill_width(track_width: int, value: int, max_value: int) -> int {
    track_width * value / max_value
}

/// A rectangle on the display, by its top left corner and its size.
#[derive(Clone, Copy, Debug, PartialEq, Eq, Structural)]
pub struct Frame {
    /// The column of the left edge.
    pub left: i32,
    /// The row of the top edge.
    pub top: i32,
    /// The width in pixels.
    pub width: u32,
    /// The height in pixels.
    pub height: u32,
}

/// A bar gauge: where its track lies and which value fills it.
pub struct Gauge {
    track: Frame,
    max_value: u32,
}

impl Gauge {
    /// The outline of the gauge.
    pub closed spec fn track(&self) -> Frame {
        self.track
    }

    /// The value at which the track is filled.
    pub closed spec fn max_value(&self) -> u32 {
        self.max_value
    }

    /// The gauge has a value that fills it.
    pub open spec fn wf(&self) -> bool {
        self.max_value() > 0
    }

    /// Whether the filled part for `value` has a width that a frame can hold.
    pub open spec fn shows(&self, value: u32) -> bool {
        fill_width(self.track().width as int, value as int, self.max_value() as int) <= u32::MAX
    }

    /// A gauge with the given track that is full at `max_value`.
    pub fn new(track: Frame, max_value: u32) -> (gauge: Self)
        requires
            max_value > 0,
        ensures
            gauge.wf(),
            gauge.track() == track,
            gauge.max_value() == max_value,
    {
        Gauge { track, max_value }
    }

    /// The frame to draw as the outline.
    pub fn outline(&self) -> (frame: Frame)
        ensures
            frame == self.track(),
    {
        self.track
    }

    /// The frame to draw filled for `value`: the track's corner and height,
    /// and the part of its width that `value` is of `max_value`. There is none
    /// where that width is more than a frame can hold.
    pub fn filled(&self, value: u32) -> (frame: Option<Frame>)
        requires
            self.wf(),
        ensures
            frame.is_some() == self.shows(value),
            frame matches Some(bar) ==> {
                &&& bar.left == self.track().left
                &&& bar.top == self.track().top
                &&& bar.height == self.track().height
                &&& bar.width == fill_width(
                    self.track().width as int,
                    value as int,
                    self.max_value() as int,
                )
            },
    {
        assert(self.track.width * value <= 0xFFFF_FFFF * 0xFFFF_FFFF) by (nonlinear_arith)
            requires
                self.track.width <= 0xFFFF_FFFF,
                value <= 0xFFFF_FFFF,
        ;
        let width: u64 = self.track.width as u64 * value as u64 / self.max_value as u64;
        if width > 0xFFFF_FFFF {
            None
        } else {
            Some(
                Frame {
                    left: self.track.left,
                    top: self.track.top,
                    width: width as u32,
                    height: self.track.height,
                },
            )
        }
    }
}

/// A value of at most `max_value` never fills more than the track, and fills
/// it exactly at `max_value`.
pub proof fn law_fill_stays_in_track(track_width: int, value: int, max_value: int)
    requires
        0 <= track_width,
        0 <= value <= max_value,
        0 < max_value,
    ensures
        0 <= fill_width(track_width, value, max_value) <= track_width,
        fill_width(track_width, max_value, max_value) == track_width,
        fill_width(track_width, 0, max_value) == 0,
{
    assert(0 <= track_width * value / max_value <= track_width) by (nonlinear_arith)
        requires
            0 <= track_width,
            0 <= value <= max_value,
            0 < max_value,
    ;
    assert(track_width * max_value / max_value == track_width) by (nonlinear_arith)
        requires
            0 < max_value,
    ;
    assert(track_width * 0 / max_value == 0) by (nonlinear_arith)
        requires
            0 < max_value,
    ;
}

/// A larger value never fills less of the track.
pub proof fn law_fill_is_monotone(track_width: int, low: int, high: int, max_value: int)
    requires
        0 <= track_width,
        0 <= low <= high,
        0 < max_value,
    ensures
        fill_width(track_width, low, max_value) <= fill_width(track_width, high, max_value),
{
    assert(track_width * low / max_value <= track_width * high / max_value) by (nonlinear_arith)
        requires
            0 <= track_width,
            0 <= low <= high,
            0 < max_value,
    ;
}

} // verus!
