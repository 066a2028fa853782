//! Two moving averages in series, the second fed with what the first gives up.
//!
//! Every sample goes into the first stage. The second stage is not fed the
//! sample that came in but the one that the first stage evicted to make room
//! for it, so it averages the window just before the first stage's window.
//! The cascade puts out the mean of the two stages' averages.

use crate::moving_average::{
    latest, lemma_latest_slides, lemma_window_is_latest, outgoing, output, slide, window_of,
    MovingAverage,
};
use vstd::prelude::*;

verus! {

/// The two windows after `sample` has come in: the first stage takes the
/// sample, the second what the first gave up for it.
pub open spec fn cascade_feed(windows: (Seq<u16>, Seq<u16>), capacity: nat, sample: u16) -> (
    Seq<u16>,
    Seq<u16>,
) {
    (
        slide(windows.0, capacity, sample),
        match outgoing(windows.0, capacity) {
            Some(evicted) => slide(windows.1, capacity, evicted),
            None => windows.1,
        },
    )
}

/// What a cascade with these two windows puts out: the mean of the two
/// stages' outputs, rounded down.
pub open spec fn cascade_output(windows: (Seq<u16>, Seq<u16>), default: u16) -> int {
    (output(windows.0, default) + output(windows.1, default)) / 2
}

/// The windows of a cascade that started empty and took in `inputs` in order.
pub open spec fn cascade_of(inputs: Seq<u16>, capacity: nat) -> (Seq<u16>, Seq<u16>)
    decreases inputs.len(),
{
    if inputs.len() == 0 {
        (Seq::empty(), Seq::empty())
    } else {
        cascade_feed(cascade_of(inputs.drop_last(), capacity), capacity, inputs.last())
    }
}

/// The inputs that have left a first stage of `capacity` samples.
pub open spec fn passed_on(inputs: Seq<u16>, capacity: nat) -> Seq<u16> {
    if inputs.len() <= capacity {
        Seq::empty()
    } else {
        inputs.take(inputs.len() - capacity)
    }
}

/// Two-stage moving average with windows of `N` samples each.
pub struct Cascade<const N: usize> {
    first: MovingAverage<N>,
    second: MovingAverage<N>,
}

impl<const N: usize> View for Cascade<N> {
    type V = (Seq<u16>, Seq<u16>);

    /// The windows of the first and of the second stage, oldest sample first.
    closed spec fn view(&self) -> (Seq<u16>, Seq<u16>) {
        (self.first@, self.second@)
    }
}

impl<const N: usize> Cascade<N> {
    /// The value that a stage puts out while its window is empty.
    pub closed spec fn default_value(&self) -> u16 {
        self.first.default_value()
    }

    /// Both stages are well formed and share their default.
    pub closed spec fn wf(&self) -> bool {
        &&& self.first.wf()
        &&& self.second.wf()
        &&& self.second.default_value() == self.first.default_value()
    }

    /// An empty cascade whose stages put out `default` until their first
    /// sample.
    pub fn new(default: u16) -> (cascade: Self)
        requires
            MovingAverage::<N>::window_fits(),
        ensures
            cascade.wf(),
            cascade@ == (Seq::<u16>::empty(), Seq::<u16>::empty()),
            cascade.default_value() == default,
    {
        Cascade { first: MovingAverage::new(default), second: MovingAverage::new(default) }
    }

    /// Takes in a sample.
    pub fn add(&mut self, value: u16)
        requires
            old(self).wf(),
        ensures
            final(self).wf(),
            final(self)@ == cascade_feed(old(self)@, N as nat, value),
            final(self).default_value() == old(self).default_value(),
    {
        match self.first.add(value) {
            Some(evicted) => {
                self.second.add(evicted);
            },
            None => {},
        }
    }

    /// The mean of the two stages' averages, rounded down.
    pub fn average(&self) -> (average: u16)
        requires
            self.wf(),
        ensures
            average == cascade_output(self@, self.default_value()),
    {
        let first: u32 = self.first.average() as u32;
        let second: u32 = self.second.average() as u32;
        ((first + second) / 2) as u16
    }
}

/// A cascade that started empty holds the latest `capacity` inputs in its
/// first stage and the `capacity` inputs before those in its second.
pub proof fn law_cascade_windows(inputs: Seq<u16>, capacity: nat)
    requires
        capacity > 0,
    ensures
        cascade_of(inputs, capacity) == (
            latest(inputs, capacity),
            latest(passed_on(inputs, capacity), capacity),
        ),
    decreases inputs.len(),
{
    if inputs.len() == 0 {
        assert(latest(inputs, capacity) =~= Seq::<u16>::empty());
        assert(latest(passed_on(inputs, capacity), capacity) =~= Seq::<u16>::empty());
    } else {
        let earlier = inputs.drop_last();
        law_cascade_windows(earlier, capacity);
        lemma_latest_slides(inputs, capacity);
        if earlier.len() >= capacity {
            let gone = passed_on(inputs, capacity);
            assert(gone.drop_last() =~= passed_on(earlier, capacity));
            assert(gone.last() == latest(earlier, capacity)[0]);
            lemma_latest_slides(gone, capacity);
        } else {
            assert(passed_on(inputs, capacity) =~= passed_on(earlier, capacity));
        }
    }
}

/// The first stage of a cascade is the moving average over the same inputs.
pub proof fn law_cascade_first_stage(inputs: Seq<u16>, capacity: nat)
    requires
        capacity > 0,
    ensures
        cascade_of(inputs, capacity).0 == window_of(inputs, capacity),
{
    law_cascade_windows(inputs, capacity);
    lemma_window_is_latest(inputs, capacity);
}

} // verus!
