//! The shared generation counter behind the picker's cancellation protocol.
//!
//! A picker owns one live counter; every injector handle captures a stamp of
//! it at creation time. Advancing the counter makes every earlier stamp
//! stale, which producers observe on their next push. Staleness is detected
//! by a single comparison, so no lock is ever taken.
use vstd::prelude::*;

verus! {

/// True exactly when a handle stamped `stamp` is still current against the
/// live counter value `live`.
pub open spec fn stamp_current(stamp: usize, live: usize) -> bool {
    stamp == live
}

/// A shared, monotonically advanced generation counter.
pub struct VersionCounter {
    cell: std::sync::Arc<std::sync::atomic::AtomicUsize>,
}

impl VersionCounter {
    /// A fresh counter, shared by nobody yet.
    pub fn new() -> VersionCounter {
        VersionCounter { cell: std::sync::Arc::new(std::sync::atomic::AtomicUsize::new(0)) }
    }

    /// Another handle on the same live counter.
    pub fn share(&self) -> VersionCounter {
        VersionCounter { cell: arc_clone_counter(&self.cell) }
    }

    /// The live value right now. Other threads may advance the counter at
    /// any moment, so nothing can be promised of the value read.
    pub fn load(&self) -> usize {
        self.cell.load(std::sync::atomic::Ordering::Relaxed)
    }

    /// Advance the live counter, making every stamp taken earlier stale.
    pub fn bump(&self) {
        self.cell.fetch_add(1, std::sync::atomic::Ordering::Relaxed);
    }
}

/// Relies on `Arc::clone`: returns a handle on the same allocation.
#[verifier::external_body]
fn arc_clone_counter(
    a: &std::sync::Arc<std::sync::atomic::AtomicUsize>,
) -> (r: std::sync::Arc<std::sync::atomic::AtomicUsize>)
    ensures
        r == *a,
{
    a.clone()
}

/// Once the live counter has moved past a stamp, that stamp never matches
/// again: a handle captured before a bump stays stale forever after it.
pub proof fn lemma_stale_stamp_never_recovers(stamp: usize, live: usize)
    requires
        stamp < live,
    ensures
        !stamp_current(stamp, live),
{
}

/// Two handles whose stamps differ can never both be current at once: after
/// a bump, a handle taken before it and one taken after it never both
/// succeed.
pub proof fn lemma_distinct_stamps_exclusive(s1: usize, s2: usize, live: usize)
    requires
        s1 != s2,
    ensures
        !(stamp_current(s1, live) && stamp_current(s2, live)),
{
}

} // verus!
