//! The process lifecycle coordinator's bookkeeping: the launcher that
//! owns a file is stopped before the file is edited and given a chance
//! to restart exactly once afterward, whether the edit succeeded or
//! failed. The surrounding application performs the actual stop and
//! start; this state machine fixes the decisions: remember whether the
//! launcher was running, and answer — once — whether it must be
//! relaunched.

use vstd::prelude::*;

verus! {

/// One stop/relaunch bracket around a file-mutation operation.
pub struct ProcessCoordinator {
    /// Whether the launcher was running when it was stopped.
    pub was_running: bool,
    /// Whether the bracket has been closed.
    pub finished: bool,
}

impl ProcessCoordinator {
    /// Open the bracket, right after the launcher has been stopped.
    /// `was_running` reports whether any instance was actually killed.
    pub fn begin(was_running: bool) -> (r: ProcessCoordinator)
        ensures
            r.was_running == was_running,
            !r.finished,
    {
        ProcessCoordinator { was_running, finished: false }
    }

    /// Close the bracket: answers whether the launcher must be
    /// relaunched, which is exactly when it was running before. The
    /// bracket can be closed only once, so the launcher is relaunched
    /// at most once per coordinator.
    pub fn finish(&mut self) -> (relaunch: bool)
        requires
            !old(self).finished,
        ensures
            final(self).finished,
            final(self).was_running == old(self).was_running,
            relaunch == old(self).was_running,
    {
        self.finished = true;
        self.was_running
    }
}

} // verus!
