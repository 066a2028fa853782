//! The shared state between the producer and the consumer.
//!
//! Three cells, one for each stage of the pipeline, each written with a
//! relaxed atomic store and read with a relaxed atomic load. Nothing orders
//! the three cells against each other: a reader may see values of different
//! producer iterations side by side. Only the producer publishes and only the
//! consumer loads, and neither ever waits for the other.

use crate::sampler::Snapshot;
use std::sync::atomic::{AtomicU32, Ordering};
use vstd::prelude::*;

verus! {

/// The publication point of the pipeline.
pub struct SharedState {
    raw: AtomicU32,
    filtered: AtomicU32,
    normalized: AtomicU32,
}

impl SharedState {
    /// Shared state with every cell at zero.
    pub fn new() -> (state: Self) {
        SharedState {
            raw: AtomicU32::new(0),
            filtered: AtomicU32::new(0),
            normalized: AtomicU32::new(0),
        }
    }

    /// Stores the three values of a snapshot, each in its own cell.
    pub fn publish(&self, snapshot: Snapshot) {
        self.raw.store(snapshot.raw, Ordering::Relaxed);
        self.filtered.store(snapshot.filtered, Ordering::Relaxed);
        self.normalized.store(snapshot.normalized, Ordering::Relaxed);
    }

    /// Loads the three cells. The values need not come from one `publish`:
    /// whatever the cells give is put together by `Snapshot::new`.
    pub fn load(&self) -> (seen: Snapshot) {
        let raw: u32 = self.raw.load(Ordering::Relaxed);
        let filtered: u32 = self.filtered.load(Ordering::Relaxed);
        let normalized: u32 = self.normalized.load(Ordering::Relaxed);
        Snapshot::new(raw, filtered, normalized)
    }
}

} // verus!
