//! Tracking one run of a flat execution plan.
//!
//! The plan is an ordered list of positions of direct fabrics. Tasks
//! run strictly in order, one at a time: the caller asks which entry
//! runs next, performs the spawn, and reports the outcome. A non-zero
//! exit or a spawn failure halts the run at that position for good;
//! nothing later in the plan is ever offered again.

use vstd::prelude::*;

verus! {

/// The state of one run: how far the plan has got and whether a
/// failure has halted it.
#[derive(Debug, Clone, PartialEq, Eq)]
pub struct Execution {
    /// The plan being run, as positions of direct fabrics.
    pub plan: Vec<usize>,
    /// How many plan entries have completed successfully.
    pub done: usize,
    /// Whether a failure has been recorded; nothing runs after one.
    pub failed: bool,
}

impl Execution {
    /// The completed count never passes the end of the plan.
    pub open spec fn wf(self) -> bool {
        self.done <= self.plan@.len()
    }

    /// The plan entry that must run next, or nothing once the plan is
    /// exhausted or a failure has halted the run.
    pub open spec fn spec_current(self) -> Option<usize> {
        if !self.failed && self.done < self.plan@.len() {
            Some(self.plan@[self.done as int])
        } else {
            None
        }
    }

    /// Starts a run at the beginning of `plan`.
    pub fn new(plan: Vec<usize>) -> (r: Execution)
        ensures
            r.plan == plan,
            r.done == 0,
            !r.failed,
            r.wf(),
    {
        Execution { plan, done: 0, failed: false }
    }

    /// The position to run next, in plan order.
    pub fn current(&self) -> (r: Option<usize>)
        ensures
            r == self.spec_current(),
    {
        if !self.failed && self.done < self.plan.len() {
            Some(self.plan[self.done])
        } else {
            None
        }
    }

    /// Records the outcome of the entry last handed out by `current`:
    /// success advances past it, failure halts the run at that position
    /// for good.
    pub fn record(&mut self, success: bool)
        requires
            old(self).spec_current() is Some,
        ensures
            final(self).plan == old(self).plan,
            final(self).wf(),
            success ==> final(self).done == old(self).done + 1 && !final(self).failed,
            !success ==> final(self).failed && final(self).done == old(self).done,
    {
        if success {
            let n: usize = self.plan.len();
            self.done = self.done + 1;
            proof {
                assert(self.done <= n);
            }
        } else {
            self.failed = true;
        }
    }

    /// The plan position at which the run failed, if it has.
    pub fn failure(&self) -> (r: Option<usize>)
        ensures
            r == (if self.failed && self.done < self.plan@.len() {
                Some(self.plan@[self.done as int])
            } else {
                None::<usize>
            }),
    {
        if self.failed && self.done < self.plan.len() {
            Some(self.plan[self.done])
        } else {
            None
        }
    }

    /// Whether every plan entry completed successfully.
    pub fn finished(&self) -> (r: bool)
        ensures
            r == (!self.failed && self.done == self.plan@.len()),
    {
        !self.failed && self.done == self.plan.len()
    }
}

/// A failed run stays halted: once a failure is recorded, no task is
/// offered any more, so no entry after the failing one ever runs.
pub proof fn lemma_failure_halts(e: Execution)
    requires
        e.failed,
    ensures
        e.spec_current() is None,
{
}

} // verus!
