use vstd::prelude::*;
use crate::statistics::Statistics;

verus! {

/// Decides when to examine the neighbor list (doing it at every step is too
/// expensive) and when to audit it, and gathers statistics on both.
#[derive(Debug)]
pub struct CountDown {
    /// Number of steps after an update before the first update check
    delay: u64,
    /// Number of steps between two update checks
    steps_per_update_check: u64,
    /// Number of updates between two sanity checks (`None` disables them)
    updates_per_sanity_check: Option<u64>,
    /// Steps since the last update
    step_counter: u64,
    /// Updates since the last sanity check
    update_counter: u64,
    statistics: Statistics,
}

/// The state of a `CountDown`.
pub struct CountDownState {
    pub delay: nat,
    pub steps_per_update_check: nat,
    pub updates_per_sanity_check: Option<nat>,
    pub step_counter: nat,
    pub update_counter: nat,
    pub statistics: Statistics,
}

/// Whether an update check is due on the step that brings the step counter
/// to `step_counter`: first at `delay + 1`, then every `stride` steps.
pub open spec fn update_check_due(step_counter: nat, delay: nat, stride: nat) -> bool {
    step_counter > delay && (step_counter - delay - 1) % (stride as int) == 0
}

/// Whether a sanity check is due on the update that brings the update
/// counter to `update_counter`.
pub open spec fn sanity_check_due(update_counter: nat, every: Option<nat>) -> bool {
    match every {
        Some(k) => update_counter % k == 0,
        None => false,
    }
}

impl CountDownState {
    pub open spec fn wf(&self) -> bool {
        &&& self.steps_per_update_check >= 1
        &&& self.updates_per_sanity_check != Some(0nat)
        &&& self.step_counter <= self.statistics.steps
        &&& self.update_counter <= self.statistics.updates
        &&& self.statistics.consistent()
    }

    /// Room for one more step in the counters.
    pub open spec fn can_step(&self) -> bool {
        self.statistics.steps < u64::MAX
    }

    /// Room for one more update in the counters.
    pub open spec fn can_update(&self) -> bool {
        self.statistics.updates < u64::MAX
    }

    /// The state after one more step; `due` is the answer given.
    pub open spec fn after_step(self, due: bool) -> CountDownState {
        CountDownState {
            step_counter: self.step_counter + 1,
            statistics: Statistics {
                steps: (self.statistics.steps + 1) as u64,
                update_checks: (self.statistics.update_checks + if due { 1int } else { 0int }) as u64,
                ..self.statistics
            },
            ..self
        }
    }

    /// The state after one more update; `due` is the answer given.
    pub open spec fn after_update(self, due: bool) -> CountDownState {
        CountDownState {
            step_counter: 0,
            update_counter: if due { 0 } else { self.update_counter + 1 },
            statistics: Statistics {
                updates: (self.statistics.updates + 1) as u64,
                sanity_checks: (self.statistics.sanity_checks + if due { 1int } else { 0int }) as u64,
                ..self.statistics
            },
            ..self
        }
    }
}

impl View for CountDown {
    type V = CountDownState;

    closed spec fn view(&self) -> CountDownState {
        CountDownState {
            delay: self.delay as nat,
            steps_per_update_check: self.steps_per_update_check as nat,
            updates_per_sanity_check: match self.updates_per_sanity_check {
                Some(k) => Some(k as nat),
                None => None,
            },
            step_counter: self.step_counter as nat,
            update_counter: self.update_counter as nat,
            statistics: self.statistics,
        }
    }
}

impl Clone for CountDown {
    fn clone(&self) -> (r: Self)
        ensures
            r@ == self@,
    {
        CountDown {
            delay: self.delay,
            steps_per_update_check: self.steps_per_update_check,
            updates_per_sanity_check: self.updates_per_sanity_check,
            step_counter: self.step_counter,
            update_counter: self.update_counter,
            statistics: self.statistics,
        }
    }
}

impl CountDown {
    /// Create a new countdown.
    pub fn new(delay: u64, steps_per_update_check: u64, updates_per_sanity_check: Option<u64>) -> (r: Self)
        requires
            steps_per_update_check >= 1,
            updates_per_sanity_check != Some(0u64),
        ensures
            r@.wf(),
            r@.delay == delay,
            r@.steps_per_update_check == steps_per_update_check,
            r@.updates_per_sanity_check == match updates_per_sanity_check {
                Some(k) => Some(k as nat),
                None => None::<nat>,
            },
            r@.step_counter == 0,
            r@.update_counter == 0,
            r@.statistics == (Statistics { steps: 0, update_checks: 0, updates: 0, sanity_checks: 0 }),
    {
        CountDown {
            delay,
            steps_per_update_check,
            updates_per_sanity_check,
            step_counter: 0,
            update_counter: 0,
            statistics: Statistics::default(),
        }
    }

    /// Count one step, and return true if it is time to check whether the
    /// neighbor list needs an update.
    pub fn needs_update_check(&mut self) -> (r: bool)
        requires
            old(self)@.wf(),
            old(self)@.can_step(),
        ensures
            r == update_check_due(old(self)@.step_counter + 1, old(self)@.delay, old(self)@.steps_per_update_check),
            final(self)@ == old(self)@.after_step(r),
            final(self)@.wf(),
    {
        self.step_counter = self.step_counter + 1;
        self.statistics.steps = self.statistics.steps + 1;
        if self.step_counter <= self.delay {
            return false;
        }
        let steps_after_delay = self.step_counter - self.delay - 1;
        if steps_after_delay % self.steps_per_update_check == 0 {
            self.statistics.update_checks = self.statistics.update_checks + 1;
            return true;
        }
        false
    }

    /// Count one update (which restarts the step count), and return true if
    /// it is time for an expensive sanity check.
    pub fn needs_sanity_check(&mut self) -> (r: bool)
        requires
            old(self)@.wf(),
            old(self)@.can_update(),
        ensures
            r == sanity_check_due(old(self)@.update_counter + 1, old(self)@.updates_per_sanity_check),
            final(self)@ == old(self)@.after_update(r),
            final(self)@.wf(),
    {
        self.step_counter = 0;
        self.update_counter = self.update_counter + 1;
        self.statistics.updates = self.statistics.updates + 1;
        if let Some(updates_per_sanity_check) = self.updates_per_sanity_check {
            if self.update_counter % updates_per_sanity_check == 0 {
                self.statistics.sanity_checks = self.statistics.sanity_checks + 1;
                self.update_counter = 0;
                return true;
            }
        }
        false
    }

    /// Whether the next call of `needs_update_check` will return true.
    pub fn next_step_checks(&self) -> (r: bool)
        requires
            self@.wf(),
            self@.can_step(),
        ensures
            r == update_check_due(self@.step_counter + 1, self@.delay, self@.steps_per_update_check),
    {
        let next = self.step_counter + 1;
        next > self.delay && (next - self.delay - 1) % self.steps_per_update_check == 0
    }

    /// Whether the counters have room for one more step and one more update.
    pub fn has_room(&self) -> (r: bool)
        ensures
            r == (self@.can_step() && self@.can_update()),
    {
        self.statistics.steps < u64::MAX && self.statistics.updates < u64::MAX
    }

    /// The statistics gathered so far.
    pub fn statistics(&self) -> (r: &Statistics)
        ensures
            *r == self@.statistics,
    {
        &self.statistics
    }
}

} // verus!
