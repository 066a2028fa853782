//! The filters behind one interface, and chains of them.
//!
//! A `Filter` is any one of the smoothing strategies. A `FilterChain` composes
//! filters in series: a sample goes into the first stage, what that stage then
//! puts out goes into the second, and so on, and the chain puts out what its
//! last stage puts out.

use crate::cascade::{cascade_feed, cascade_output, Cascade};
use crate::geometric::{blend, scaled, GeometricFilter, LEVEL_SCALE};
use crate::hysteresis::{resettled, HysteresisBounds};
use crate::moving_average::{lemma_mean_is_a_sample_value, output, slide, MovingAverage};
use vstd::prelude::*;

verus! {

/// What a filter holds, as far as its output and its later states depend on
/// it.
pub enum FilterState {
    /// A moving average: its window, oldest sample first, and its default.
    Window { samples: Seq<u16>, default: u16 },
    /// An exponential smoother: its scaled level and its weight.
    Level { level: u32, weight: u32 },
    /// Hysteresis bounds: the settled value and the configuration.
    Band { settled: u16, margin: u16, hard_low: u16, hard_high: u16 },
    /// A cascade: the windows of its two stages and their default.
    Windows { first: Seq<u16>, second: Seq<u16>, default: u16 },
}

impl FilterState {
    /// The state after `sample` has come in. `capacity` is the window of the
    /// moving averages.
    pub open spec fn fed(self, capacity: nat, sample: u16) -> FilterState {
        match self {
            FilterState::Window { samples, default } => FilterState::Window {
                samples: slide(samples, capacity, sample),
                default,
            },
            FilterState::Level { level, weight } => FilterState::Level {
                level: blend(level as int, scaled(sample), weight as int) as u32,
                weight,
            },
            FilterState::Band { settled, margin, hard_low, hard_high } => FilterState::Band {
                settled: resettled(settled, margin, hard_low, hard_high, sample),
                margin,
                hard_low,
                hard_high,
            },
            FilterState::Windows { first, second, default } => {
                let windows = cascade_feed((first, second), capacity, sample);
                FilterState::Windows { first: windows.0, second: windows.1, default }
            },
        }
    }

    /// What a filter in this state puts out.
    pub open spec fn value(self) -> int {
        match self {
            FilterState::Window { samples, default } => output(samples, default),
            FilterState::Level { level, weight } => level as int / LEVEL_SCALE as int,
            FilterState::Band { settled, margin, hard_low, hard_high } => settled as int,
            FilterState::Windows { first, second, default } => cascade_output(
                (first, second),
                default,
            ),
        }
    }
}

/// One smoothing strategy, chosen when the pipeline is built.
pub enum Filter<const N: usize> {
    /// Moving average over the last `N` samples.
    MovingAverage(MovingAverage<N>),
    /// Exponential smoother.
    Exponential(GeometricFilter),
    /// Dead band with hard bounds.
    Hysteresis(HysteresisBounds),
    /// Two moving averages over `N` samples each, in cascade.
    Cascade(Cascade<N>),
}

impl<const N: usize> View for Filter<N> {
    type V = FilterState;

    open spec fn view(&self) -> FilterState {
        match self {
            Filter::MovingAverage(filter) => FilterState::Window {
                samples: filter@,
                default: filter.default_value(),
            },
            Filter::Exponential(filter) => FilterState::Level {
                level: filter.level(),
                weight: filter.weight(),
            },
            Filter::Hysteresis(bounds) => FilterState::Band {
                settled: bounds.settled(),
                margin: bounds.margin(),
                hard_low: bounds.hard_low(),
                hard_high: bounds.hard_high(),
            },
            Filter::Cascade(cascade) => FilterState::Windows {
                first: cascade@.0,
                second: cascade@.1,
                default: cascade.default_value(),
            },
        }
    }
}

impl<const N: usize> Filter<N> {
    /// The filter inside is well formed.
    pub open spec fn wf(&self) -> bool {
        match self {
            Filter::MovingAverage(filter) => filter.wf(),
            Filter::Exponential(filter) => true,
            Filter::Hysteresis(bounds) => bounds.wf(),
            Filter::Cascade(cascade) => cascade.wf(),
        }
    }

    /// Takes in a sample.
    pub fn add(&mut self, sample: u16)
        requires
            old(self).wf(),
        ensures
            final(self).wf(),
            final(self)@ == old(self)@.fed(N as nat, sample),
    {
        match self {
            Filter::MovingAverage(filter) => {
                filter.add(sample);
            },
            Filter::Exponential(filter) => {
                filter.add(sample);
            },
            Filter::Hysteresis(bounds) => {
                bounds.apply(sample);
            },
            Filter::Cascade(cascade) => {
                cascade.add(sample);
            },
        }
    }

    /// The filtered value.
    pub fn output(&self) -> (value: u16)
        requires
            self.wf(),
        ensures
            value == self@.value(),
    {
        match self {
            Filter::MovingAverage(filter) => filter.average(),
            Filter::Exponential(filter) => filter.get_average(),
            Filter::Hysteresis(bounds) => bounds.value(),
            Filter::Cascade(cascade) => cascade.average(),
        }
    }
}

/// The sample that stage `index` of a chain takes in when `sample` goes into
/// the chain: the sample itself for the first stage, and for every other stage
/// what the stage before it puts out once it has been fed.
pub open spec fn carried(stages: Seq<FilterState>, capacity: nat, sample: u16, index: int) -> u16
    decreases index,
{
    if index <= 0 {
        sample
    } else {
        stages[index - 1].fed(capacity, carried(stages, capacity, sample, index - 1)).value() as u16
    }
}

/// The stages of a chain after `sample` has gone into it.
pub open spec fn chain_fed(stages: Seq<FilterState>, capacity: nat, sample: u16) -> Seq<
    FilterState,
> {
    Seq::new(
        stages.len(),
        |index: int| stages[index].fed(capacity, carried(stages, capacity, sample, index)),
    )
}

/// What a chain puts out: the output of its last stage.
pub open spec fn chain_value(stages: Seq<FilterState>) -> int {
    stages.last().value()
}

/// `K` filters in series.
pub struct FilterChain<const N: usize, const K: usize> {
    stages: [Filter<N>; K],
}

impl<const N: usize, const K: usize> View for FilterChain<N, K> {
    type V = Seq<FilterState>;

    /// The states of the stages, first stage first.
    closed spec fn view(&self) -> Seq<FilterState> {
        Seq::new(K as nat, |index: int| self.stages@[index]@)
    }
}

impl<const N: usize, const K: usize> FilterChain<N, K> {
    /// There is at least one stage, and every stage is well formed.
    pub closed spec fn wf(&self) -> bool {
        &&& K > 0
        &&& forall|index: int| 0 <= index < K ==> #[trigger] self.stages@[index].wf()
    }

    /// The chain of the given stages, first stage first.
    pub fn new(stages: [Filter<N>; K]) -> (chain: Self)
        requires
            K > 0,
            forall|index: int| 0 <= index < K ==> #[trigger] stages@[index].wf(),
        ensures
            chain.wf(),
            chain@ == Seq::new(K as nat, |index: int| stages@[index]@),
    {
        FilterChain { stages }
    }

    /// Sends a sample through the stages.
    pub fn add(&mut self, sample: u16)
        requires
            old(self).wf(),
        ensures
            final(self).wf(),
            final(self)@ == chain_fed(old(self)@, N as nat, sample),
    {
        let ghost before = self@;
        let mut carry: u16 = sample;
        let mut index: usize = 0;
        while index < K
            invariant
                index <= K,
                self.wf(),
                self@.len() == K,
                before.len() == K,
                carry == carried(before, N as nat, sample, index as int),
                forall|i: int|
                    0 <= i < index ==> #[trigger] self@[i] == before[i].fed(
                        N as nat,
                        carried(before, N as nat, sample, i),
                    ),
                forall|i: int| index <= i < K ==> #[trigger] self@[i] == before[i],
            decreases K - index,
        {
            let ghost earlier = self@;
            self.stages[index].add(carry);
            assert(self@[index as int] == earlier[index as int].fed(N as nat, carry));
            assert forall|i: int| 0 <= i < K && i != index implies #[trigger] self@[i]
                == earlier[i] by {}
            carry = self.stages[index].output();
            proof {
                lemma_value_is_a_sample_value(self@[index as int]);
            }
            index = index + 1;
        }
        assert(self@ =~= chain_fed(before, N as nat, sample));
    }

    /// The filtered value: what the last stage puts out.
    pub fn output(&self) -> (value: u16)
        requires
            self.wf(),
        ensures
            value == chain_value(self@),
    {
        self.stages[K - 1].output()
    }
}

/// What a filter puts out is in the range of a sample.
pub proof fn lemma_value_is_a_sample_value(state: FilterState)
    ensures
        0 <= state.value() <= u16::MAX,
{
    match state {
        FilterState::Window { samples, default } => {
            if samples.len() > 0 {
                lemma_mean_is_a_sample_value(samples);
            }
        },
        FilterState::Level { level, weight } => {},
        FilterState::Band { settled, margin, hard_low, hard_high } => {},
        FilterState::Windows { first, second, default } => {
            if first.len() > 0 {
                lemma_mean_is_a_sample_value(first);
            }
            if second.len() > 0 {
                lemma_mean_is_a_sample_value(second);
            }
        },
    }
}

/// A chain of one stage is that stage.
pub proof fn law_single_stage_chain(state: FilterState, capacity: nat, sample: u16)
    ensures
        chain_fed(seq![state], capacity, sample) == seq![state.fed(capacity, sample)],
        chain_value(seq![state]) == state.value(),
{
    assert(chain_fed(seq![state], capacity, sample) =~= seq![state.fed(capacity, sample)]);
}

} // verus!
