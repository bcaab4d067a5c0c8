//! Counting the messages a channel has sent.
use std::sync::atomic::{AtomicU64, Ordering};
use vstd::prelude::*;

verus! {

/// A counter at zero.
pub(crate) fn new_counter() -> AtomicU64 {
    AtomicU64::new(0)
}

/// Counts one more message; the count wraps around past `u64::MAX`.
pub(crate) fn count_one(counter: &AtomicU64) {
    counter.fetch_add(1, Ordering::SeqCst);
}

} // verus!
