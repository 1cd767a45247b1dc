use vstd::prelude::*;

verus! {

/// Tally of neighbor-list activity.
#[derive(Clone, Copy, Debug, PartialEq, Eq, Structural)]
pub struct Statistics {
    /// Total number of steps
    pub steps: u64,
    /// Number of times the drift of the particles was examined
    pub update_checks: u64,
    /// Number of times the neighbor list was rebuilt
    pub updates: u64,
    /// Number of sanity checks
    pub sanity_checks: u64,
}

impl Default for Statistics {
    fn default() -> (r: Statistics)
        ensures
            r == (Statistics { steps: 0, update_checks: 0, updates: 0, sanity_checks: 0 }),
    {
        Statistics { steps: 0, update_checks: 0, updates: 0, sanity_checks: 0 }
    }
}

impl Statistics {
    /// Every update check happens on a step, and every sanity check on an
    /// update.
    pub open spec fn consistent(&self) -> bool {
        self.update_checks <= self.steps && self.sanity_checks <= self.updates
    }
}

} // verus!
