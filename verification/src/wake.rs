//! One-slot wake signal.
//!
//! Each followed file owns a `WakeSlot`: a single-slot mailbox that the
//! registry fills on every directory event and the follower drains before it
//! re-reads. Signalling an already full slot is a no-op, so a burst of events
//! coalesces into at least one (not exactly one) wake.

use vstd::prelude::*;

verus! {

/// Single-slot wake mailbox: either empty or holding one pending wake.
pub struct WakeSlot {
    full: bool,
}

impl WakeSlot {
    /// Whether a wake is pending.
    pub closed spec fn is_full(self) -> bool {
        self.full
    }

    /// A fresh slot with no pending wake.
    pub fn new() -> (slot: WakeSlot)
        ensures
            !slot.is_full(),
    {
        WakeSlot { full: false }
    }

    /// Deposit a wake. Signalling a full slot leaves it full: repeated
    /// signals coalesce rather than queue.
    pub fn signal(&mut self)
        ensures
            final(self).is_full(),
    {
        self.full = true;
    }

    /// Drain the slot, reporting whether a wake was pending.
    pub fn take(&mut self) -> (was_full: bool)
        ensures
            !final(self).is_full(),
            was_full == old(self).is_full(),
    {
        let was: bool = self.full;
        self.full = false;
        was
    }
}

} // verus!
