//! Moving average over the last `N` samples.
//!
//! The filter keeps the samples of its window in a ring of `N` slots and their
//! sum beside them, so adding a sample costs the same whatever `N` is and
//! nothing is allocated.

use vstd::prelude::*;

verus! {

/// The sum of the samples.
pub open spec fn total(samples: Seq<u16>) -> int
    decreases samples.len(),
{
    if samples.len() == 0 {
        0
    } else {
        total(samples.drop_last()) + samples.last()
    }
}

/// The arithmetic mean of the samples, rounded down.
pub open spec fn mean(samples: Seq<u16>) -> int
    recommends
        samples.len() > 0,
{
    total(samples) / (samples.len() as int)
}

/// What a filter holding `window` puts out: the mean of the window, or
/// `default` while the window is empty.
pub open spec fn output(window: Seq<u16>, default: u16) -> int {
    if window.len() > 0 {
        mean(window)
    } else {
        default as int
    }
}

/// The window after `sample` has come in: a full window gives up its oldest
/// sample first.
pub open spec fn slide(window: Seq<u16>, capacity: nat, sample: u16) -> Seq<u16> {
    if window.len() >= capacity {
        window.drop_first().push(sample)
    } else {
        window.push(sample)
    }
}

/// The sample that leaves `window` when the next one comes in.
pub open spec fn outgoing(window: Seq<u16>, capacity: nat) -> Option<u16> {
    if window.len() >= capacity {
        Some(window[0])
    } else {
        None
    }
}

/// The window of a filter that started empty and took in `inputs` in order.
pub open spec fn window_of(inputs: Seq<u16>, capacity: nat) -> Seq<u16>
    decreases inputs.len(),
{
    if inputs.len() == 0 {
        Seq::empty()
    } else {
        slide(window_of(inputs.drop_last(), capacity), capacity, inputs.last())
    }
}

/// The last `count` of the inputs, or all of them where there are fewer.
pub open spec fn latest(inputs: Seq<u16>, count: nat) -> Seq<u16> {
    if inputs.len() <= count {
        inputs
    } else {
        inputs.subrange(inputs.len() - count, inputs.len() as int)
    }
}

/// The slot of the ring that holds the sample at `offset` from the oldest.
pub open spec fn slot(head: int, offset: int, capacity: int) -> int {
    if head + offset < capacity {
        head + offset
    } else {
        head + offset - capacity
    }
}

/// Moving-average filter with a window of `N` samples.
pub struct MovingAverage<const N: usize> {
    samples: [u16; N],
    head: usize,
    count: usize,
    sum: u64,
    default: u16,
}

impl<const N: usize> View for MovingAverage<N> {
    type V = Seq<u16>;

    /// The samples of the window, oldest first.
    closed spec fn view(&self) -> Seq<u16> {
        Seq::new(self.count as nat, |i: int| self.samples@[slot(self.head as int, i, N as int)])
    }
}

impl<const N: usize> MovingAverage<N> {
    /// The windows that a filter can have: at least one sample, and few enough
    /// for their sum to fit in 64 bits.
    pub open spec fn window_fits() -> bool {
        0 < N <= u32::MAX
    }

    /// The value that `average` gives while the window is empty.
    pub closed spec fn default_value(&self) -> u16 {
        self.default
    }

    /// The ring and the running sum agree with the window.
    pub closed spec fn wf(&self) -> bool {
        &&& Self::window_fits()
        &&& self.count <= N
        &&& self.head < N
        &&& (self.count < N ==> self.head == 0)
        &&& self.sum == total(self@)
    }

    /// An empty filter that puts out `default` until the first sample.
    pub fn new(default: u16) -> (filter: Self)
        requires
            Self::window_fits(),
        ensures
            filter.wf(),
            filter@ == Seq::<u16>::empty(),
            filter.default_value() == default,
    {
        let filter = MovingAverage { samples: [0u16; N], head: 0, count: 0, sum: 0, default };
        assert(filter@ =~= Seq::<u16>::empty());
        filter
    }

    /// Takes in a sample. A full window gives up its oldest sample, which is
    /// returned.
    pub fn add(&mut self, value: u16) -> (evicted: Option<u16>)
        requires
            old(self).wf(),
        ensures
            final(self).wf(),
            final(self)@ == slide(old(self)@, N as nat, value),
            evicted == outgoing(old(self)@, N as nat),
            final(self).default_value() == old(self).default_value(),
    {
        proof {
            lemma_total_bounds(self@);
        }
        if self.count == N {
            let oldest: u16 = self.samples[self.head];
            proof {
                lemma_total_drop_first(self@);
                lemma_total_bounds(self@.drop_first());
                lemma_total_push(self@.drop_first(), value);
            }
            self.samples[self.head] = value;
            self.head = if self.head + 1 == N {
                0
            } else {
                self.head + 1
            };
            self.sum = self.sum - oldest as u64 + value as u64;
            assert(self@ =~= slide(old(self)@, N as nat, value));
            Some(oldest)
        } else {
            proof {
                lemma_total_push(self@, value);
            }
            self.samples[self.count] = value;
            self.count = self.count + 1;
            self.sum = self.sum + value as u64;
            assert(self@ =~= slide(old(self)@, N as nat, value));
            None
        }
    }

    /// The mean of the samples in the window, rounded down, or the default
    /// while the window is empty.
    pub fn average(&self) -> (average: u16)
        requires
            self.wf(),
        ensures
            average == output(self@, self.default_value()),
    {
        if self.count > 0 {
            proof {
                lemma_mean_is_a_sample_value(self@);
            }
            (self.sum / self.count as u64) as u16
        } else {
            self.default
        }
    }
}

/// The sum lies between zero and what as many largest samples come to.
pub proof fn lemma_total_bounds(samples: Seq<u16>)
    ensures
        0 <= total(samples) <= samples.len() * u16::MAX,
    decreases samples.len(),
{
    if samples.len() > 0 {
        lemma_total_bounds(samples.drop_last());
    }
}

/// The mean of a sample window is itself in the range of a sample.
pub proof fn lemma_mean_is_a_sample_value(samples: Seq<u16>)
    requires
        samples.len() > 0,
    ensures
        0 <= mean(samples) <= u16::MAX,
{
    let sum = total(samples);
    let len = samples.len() as int;
    lemma_total_bounds(samples);
    assert(0 <= sum / len <= 0xFFFF) by (nonlinear_arith)
        requires
            0 <= sum <= len * 0xFFFF,
            0 < len,
    ;
}

/// A sample more adds its value to the sum.
pub proof fn lemma_total_push(samples: Seq<u16>, sample: u16)
    ensures
        total(samples.push(sample)) == total(samples) + sample,
{
    assert(samples.push(sample).drop_last() =~= samples);
}

/// Without its first sample the sum is less by that sample's value.
pub proof fn lemma_total_drop_first(samples: Seq<u16>)
    requires
        samples.len() > 0,
    ensures
        total(samples.drop_first()) == total(samples) - samples[0],
    decreases samples.len(),
{
    if samples.len() == 1 {
        assert(samples.drop_first() =~= Seq::<u16>::empty());
        assert(samples.drop_last() =~= Seq::<u16>::empty());
    } else {
        lemma_total_drop_first(samples.drop_last());
        assert(samples.drop_first().drop_last() =~= samples.drop_last().drop_first());
    }
}

/// One more input moves the latest `capacity` inputs on as a window slides.
pub proof fn lemma_latest_slides(inputs: Seq<u16>, capacity: nat)
    requires
        capacity > 0,
        inputs.len() > 0,
    ensures
        latest(inputs, capacity) == slide(
            latest(inputs.drop_last(), capacity),
            capacity,
            inputs.last(),
        ),
{
    assert(latest(inputs, capacity) =~= slide(
        latest(inputs.drop_last(), capacity),
        capacity,
        inputs.last(),
    ));
}

/// A filter that started empty holds the latest `capacity` of its inputs, or
/// all of them while they are fewer.
pub proof fn lemma_window_is_latest(inputs: Seq<u16>, capacity: nat)
    requires
        capacity > 0,
    ensures
        window_of(inputs, capacity) == latest(inputs, capacity),
    decreases inputs.len(),
{
    if inputs.len() > 0 {
        lemma_window_is_latest(inputs.drop_last(), capacity);
        lemma_latest_slides(inputs, capacity);
    } else {
        assert(window_of(inputs, capacity) =~= latest(inputs, capacity));
    }
}

/// Samples that all have one value sum to that value times their number.
pub proof fn lemma_total_of_constant(samples: Seq<u16>, level: u16)
    requires
        forall|i: int| 0 <= i < samples.len() ==> samples[i] == level,
    ensures
        total(samples) == samples.len() * level,
    decreases samples.len(),
{
    if samples.len() > 0 {
        lemma_total_of_constant(samples.drop_last(), level);
        assert(total(samples) == (samples.len() - 1) * level + level);
        assert((samples.len() - 1) * level + level == samples.len() * level) by (nonlinear_arith);
    }
}

/// While fewer samples have come in than the window takes, the output is the
/// mean, rounded down, of all the samples so far.
pub proof fn law_average_of_partial_window(inputs: Seq<u16>, capacity: nat, default: u16)
    requires
        0 < inputs.len() < capacity,
    ensures
        window_of(inputs, capacity) == inputs,
        output(window_of(inputs, capacity), default) == total(inputs) / (inputs.len() as int),
{
    lemma_window_is_latest(inputs, capacity);
}

/// Once at least as many samples have come in as the window takes, the output
/// is the mean, rounded down, of exactly the last `capacity` of them.
pub proof fn law_average_of_full_window(inputs: Seq<u16>, capacity: nat, default: u16)
    requires
        0 < capacity <= inputs.len(),
    ensures
        window_of(inputs, capacity) == inputs.subrange(
            inputs.len() - capacity,
            inputs.len() as int,
        ),
        output(window_of(inputs, capacity), default) == total(
            inputs.subrange(inputs.len() - capacity, inputs.len() as int),
        ) / (capacity as int),
{
    lemma_window_is_latest(inputs, capacity);
    assert(inputs.subrange(0, inputs.len() as int) =~= inputs);
}

/// Once the last `capacity` inputs all have one value, the output is that
/// value.
pub proof fn law_constant_input_settles(
    inputs: Seq<u16>,
    capacity: nat,
    default: u16,
    level: u16,
)
    requires
        0 < capacity <= inputs.len(),
        forall|i: int| inputs.len() - capacity <= i < inputs.len() ==> inputs[i] == level,
    ensures
        output(window_of(inputs, capacity), default) == level,
{
    let window = inputs.subrange(inputs.len() - capacity, inputs.len() as int);
    law_average_of_full_window(inputs, capacity, default);
    lemma_total_of_constant(window, level);
    assert((capacity * level) / (capacity as int) == level) by (nonlinear_arith)
        requires
            capacity > 0,
    ;
}

} // verus!
