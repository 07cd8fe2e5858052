use std::sync::atomic::{AtomicBool, AtomicU64, Ordering};
use vstd::prelude::*;

verus! {

/// The state one generation shares between the control context and every
/// render handle issued for it: a release flag and a count of active holders.
///
/// Both fields are read and written through acquire/release operations on
/// these same locations, so the control context's flag store happens-before
/// the render context's observation of it, which happens-before that
/// context's decrement, which happens-before the control context seeing the
/// count fall. The values another thread sees are not known here: callers
/// take each observation as an argument to a verified decision.
pub struct EpochToken {
    release_requested: AtomicBool,
    holders: AtomicU64,
}

impl EpochToken {
    /// A token with the flag clear and no holders.
    pub(crate) fn new() -> (r: EpochToken) {
        EpochToken { release_requested: AtomicBool::new(false), holders: AtomicU64::new(0) }
    }

    /// Counts one more holder (control context, at snapshot time).
    pub(crate) fn register_holder(&self) {
        self.holders.fetch_add(1, Ordering::AcqRel);
    }

    /// Sets the release flag (control context).
    pub(crate) fn request_release(&self) {
        self.release_requested.store(true, Ordering::Release);
    }

    /// Reads the release flag (render context, once at the start of a tick).
    pub(crate) fn release_requested(&self) -> bool {
        self.release_requested.load(Ordering::Acquire)
    }

    /// Gives up one holder (render context, once per handle).
    pub(crate) fn acknowledge(&self) {
        self.holders.fetch_sub(1, Ordering::Release);
    }

    /// Reads the number of active holders (control context).
    pub(crate) fn holders(&self) -> u64 {
        self.holders.load(Ordering::Acquire)
    }
}

} // verus!
