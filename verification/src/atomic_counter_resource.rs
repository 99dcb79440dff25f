//! The allocator of segment ordinals.

use std::sync::atomic::AtomicUsize;
use std::sync::atomic::Ordering;
use vstd::prelude::*;

verus! {

/// Hands out ordinals: each call of `get_id` on one counter returns the
/// number that follows the one returned before, from zero on. The counter is
/// atomic, so it can be shared and used through a shared reference.
pub struct AtomicCounter {
    counter: AtomicUsize,
}

impl Default for AtomicCounter {
    /// A counter whose first ordinal is zero.
    fn default() -> (fresh: Self) {
        AtomicCounter { counter: AtomicUsize::new(0) }
    }
}

impl AtomicCounter {
    /// The next ordinal. The state of an atomic has no name in contracts, so
    /// nothing is stated of the result: callers treat it as any number.
    pub fn get_id(&self) -> (id: usize) {
        self.counter.fetch_add(1, Ordering::SeqCst)
    }
}

} // verus!
