//! Fault accounting for the guard-page fault injector.
//!
//! The injector maps a two-region layout (normal region plus guard region),
//! installs a process-wide handler for the hardware fault signal, runs one
//! externally supplied routine against the layout, and restores the prior
//! handler on the normal return path. Handler restoration under a secondary
//! concurrent fault is not guaranteed; that race is a documented hazard, out
//! of scope for automatic mitigation. All of that is the unverified front
//! end's business. What it records is this explicit counter object, passed in
//! by the caller with a read and reset API, rather than ambient global
//! mutable state with no reset path.

use vstd::prelude::*;

verus! {

/// Counts handled faults across one injection campaign.
pub struct FaultCounter {
    /// Number of faults recorded since construction or the last reset.
    pub count: u64,
}

impl FaultCounter {
    /// A fresh counter at zero.
    pub fn new() -> (c: Self)
        ensures
            c.count == 0,
    {
        FaultCounter { count: 0 }
    }

    /// Records one handled fault.
    pub fn record(&mut self)
        requires
            old(self).count < u64::MAX,
        ensures
            final(self).count == old(self).count + 1,
    {
        self.count = self.count + 1;
    }

    /// The number of faults recorded so far.
    pub fn read(&self) -> (n: u64)
        ensures
            n == self.count,
    {
        self.count
    }

    /// Starts a new campaign at zero.
    pub fn reset(&mut self)
        ensures
            final(self).count == 0,
    {
        self.count = 0;
    }
}

} // verus!
