//! The producer's step: one reading in, one snapshot out.
//!
//! The sampling loop reads the converter, hands the reading (or its failure)
//! to `Sampler::step`, and publishes the snapshot that comes back. A failed
//! reading changes nothing: the last raw value is kept and the filters are not
//! fed, and the snapshot is computed from the state as it is.

use crate::filter::{chain_fed, chain_value, lemma_value_is_a_sample_value, FilterChain, FilterState};
use crate::normalize::{normalized, Normalizer};
use vstd::prelude::*;

verus! {

/// The three stages of the pipeline at one moment.
#[derive(Clone, Copy, Debug, PartialEq, Eq, Structural)]
pub struct Snapshot {
    /// The last raw reading.
    pub raw: u32,
    /// The output of the filter chain.
    pub filtered: u32,
    /// The filtered value, clamped and scaled.
    pub normalized: u32,
}

impl Snapshot {
    /// The snapshot of the three values, each in the field of its stage.
    pub fn new(raw: u32, filtered: u32, normalized: u32) -> (snapshot: Self)
        ensures
            snapshot == (Snapshot { raw, filtered, normalized }),
    {
        Snapshot { raw, filtered, normalized }
    }
}

/// What a sampler with this state publishes.
pub open spec fn snapshot_of(raw: u32, stages: Seq<FilterState>, normalizer: Normalizer) -> Snapshot {
    Snapshot {
        raw,
        filtered: chain_value(stages) as u32,
        normalized: normalized(
            chain_value(stages),
            normalizer.min() as int,
            normalizer.max() as int,
            normalizer.norm_max() as int,
        ) as u32,
    }
}

/// The producer's state: the last raw reading, the filter chain and the
/// normalization.
pub struct Sampler<const N: usize, const K: usize> {
    raw: u32,
    chain: FilterChain<N, K>,
    normalizer: Normalizer,
}

impl<const N: usize, const K: usize> Sampler<N, K> {
    /// The last raw reading, zero before the first.
    pub closed spec fn last_raw(&self) -> u32 {
        self.raw
    }

    /// The states of the filter chain's stages.
    pub closed spec fn stages(&self) -> Seq<FilterState> {
        self.chain@
    }

    /// The normalization.
    pub closed spec fn normalizer(&self) -> Normalizer {
        self.normalizer
    }

    /// The chain and the normalization are well formed.
    pub closed spec fn wf(&self) -> bool {
        &&& self.chain.wf()
        &&& self.normalizer.wf()
    }

    /// A sampler that has not read yet.
    pub fn new(chain: FilterChain<N, K>, normalizer: Normalizer) -> (sampler: Self)
        requires
            chain.wf(),
            normalizer.wf(),
        ensures
            sampler.wf(),
            sampler.last_raw() == 0,
            sampler.stages() == chain@,
            sampler.normalizer() == normalizer,
    {
        Sampler { raw: 0, chain, normalizer }
    }

    /// Takes the outcome of one read of the converter: a reading is kept as
    /// the last raw value and fed to the filter chain, a failure changes
    /// nothing. Returns what is to be published after it.
    pub fn step(&mut self, reading: Option<u16>) -> (published: Snapshot)
        requires
            old(self).wf(),
        ensures
            final(self).wf(),
            final(self).normalizer() == old(self).normalizer(),
            final(self).last_raw() == match reading {
                Some(sample) => sample as u32,
                None => old(self).last_raw(),
            },
            final(self).stages() == match reading {
                Some(sample) => chain_fed(old(self).stages(), N as nat, sample),
                None => old(self).stages(),
            },
            published == snapshot_of(
                final(self).last_raw(),
                final(self).stages(),
                final(self).normalizer(),
            ),
    {
        match reading {
            Some(sample) => {
                self.raw = sample as u32;
                self.chain.add(sample);
            },
            None => {},
        }
        self.current()
    }

    /// What the sampler publishes as it stands.
    pub fn current(&self) -> (published: Snapshot)
        requires
            self.wf(),
        ensures
            published == snapshot_of(self.last_raw(), self.stages(), self.normalizer()),
    {
        let filtered: u32 = self.chain.output() as u32;
        Snapshot { raw: self.raw, filtered, normalized: self.normalizer.normalize(filtered) }
    }
}

/// A published snapshot holds the filtered value in the range of a sample and
/// a normalized value of at most `norm_max`.
pub proof fn law_snapshot_in_range(raw: u32, stages: Seq<FilterState>, normalizer: Normalizer)
    requires
        stages.len() > 0,
        normalizer.wf(),
    ensures
        snapshot_of(raw, stages, normalizer).filtered <= u16::MAX,
        snapshot_of(raw, stages, normalizer).normalized <= normalizer.norm_max(),
        snapshot_of(raw, stages, normalizer).filtered == chain_value(stages),
        snapshot_of(raw, stages, normalizer).normalized == normalized(
            chain_value(stages),
            normalizer.min() as int,
            normalizer.max() as int,
            normalizer.norm_max() as int,
        ),
{
    lemma_value_is_a_sample_value(stages.last());
    crate::normalize::law_normalized_in_range(
        chain_value(stages),
        normalizer.min() as int,
        normalizer.max() as int,
        normalizer.norm_max() as int,
    );
}

} // verus!
