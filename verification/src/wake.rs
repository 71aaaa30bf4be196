//! The wake-signal boundary.
//!
//! A wake signal is a minimal, copyable capability that names one task
//! slot's ready flag; waking does nothing but set that flag. Tasks receive a
//! signal from the executor on every poll and may store it in the waker
//! registry or invoke it directly.

use vstd::prelude::*;

verus! {

/// Outcome of polling a suspend/resume computation.
#[derive(Clone, Copy, PartialEq, Eq, Structural, Debug)]
pub enum PollResult {
    /// The computation has completed.
    Ready,
    /// The computation suspended and arranged to be woken.
    Pending,
}

/// A wake signal for the task in slot `slot`: waking sets that slot's ready
/// flag to `true` and changes nothing else.
#[derive(Clone, Copy, PartialEq, Eq, Structural, Debug)]
pub struct WakeSignal {
    /// Index of the task slot this signal wakes.
    pub slot: usize,
}

impl WakeSignal {
    /// Marks the signalled task ready by setting its flag.
    pub fn wake(&self, flags: &mut Vec<bool>)
        requires
            self.slot < old(flags)@.len(),
        ensures
            final(flags)@ == old(flags)@.update(self.slot as int, true),
    {
        flags[self.slot] = true;
    }
}

} // verus!
