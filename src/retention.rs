use vstd::prelude::*;
use crate::task::TaskState;

verus! {

/// All possible options for retaining tasks in the store after their execution.
///
/// The default mode is `RetentionMode::RemoveAll`.
#[derive(Clone, Copy, Debug, PartialEq, Eq, Structural)]
pub enum RetentionMode {
    /// Keep all tasks
    KeepAll,
    /// Remove all tasks
    RemoveAll,
    /// Remove only successfully finished tasks
    RemoveFinished,
}

impl RetentionMode {
    /// Whether a task that ended in `outcome` is deleted under this mode.
    pub open spec fn removes(self, outcome: TaskState) -> bool {
        match self {
            RetentionMode::KeepAll => false,
            RetentionMode::RemoveAll => true,
            RetentionMode::RemoveFinished => outcome == TaskState::Finished,
        }
    }

    /// Decides whether a task that ended in `outcome` is to be deleted.
    pub fn should_remove(&self, outcome: TaskState) -> (r: bool)
        ensures
            r == self.removes(outcome),
    {
        match self {
            RetentionMode::KeepAll => false,
            RetentionMode::RemoveAll => true,
            RetentionMode::RemoveFinished => outcome == TaskState::Finished,
        }
    }
}

impl Default for RetentionMode {
    fn default() -> (r: RetentionMode)
        ensures
            r == RetentionMode::RemoveAll,
    {
        RetentionMode::RemoveAll
    }
}

} // verus!
