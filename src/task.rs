use vstd::prelude::*;
use vstd::arithmetic::power2::{lemma2_to64, lemma_pow2_strictly_increases, lemma_pow2_unfold, pow2};

verus! {

/// The lifecycle states of a queued unit of work.
#[derive(Clone, Copy, Debug, PartialEq, Eq, Structural)]
pub enum TaskState {
    /// waiting to be claimed once its time has come
    New,
    /// claimed by exactly one worker
    InProgress,
    /// executed successfully (terminal)
    Finished,
    /// failed for the last time (terminal)
    Failed,
    /// failed, and eligible to be claimed again
    Retried,
}

impl TaskState {
    /// `Finished` and `Failed` end a task's life.
    pub open spec fn is_terminal(self) -> bool {
        self == TaskState::Finished || self == TaskState::Failed
    }

    /// Whether a task in this state ends its life.
    pub fn terminal(&self) -> (r: bool)
        ensures
            r == self.is_terminal(),
    {
        match self {
            TaskState::Finished | TaskState::Failed => true,
            _ => false,
        }
    }
}

/// An error that can happen during the execution of a task.
#[derive(Clone, Debug)]
pub struct FangError {
    /// A description of the error
    pub description: String,
}

/// What a failed execution leads to: retried with one more retry while
/// `retries < max_retries`, else failed for good.
pub open spec fn failure_outcome(retries: u32, max_retries: u32) -> (TaskState, u32) {
    if retries < max_retries {
        (TaskState::Retried, (retries + 1) as u32)
    } else {
        (TaskState::Failed, retries)
    }
}

/// The transition after a failed execution: the next state and retry count.
pub fn on_failure(retries: u32, max_retries: u32) -> (r: (TaskState, u32))
    ensures
        r == failure_outcome(retries, max_retries),
{
    if retries < max_retries {
        (TaskState::Retried, retries + 1)
    } else {
        (TaskState::Failed, retries)
    }
}

/// The default delay, in seconds, before retry number `attempt + 1`:
/// `2^attempt`, saturating at `u32::MAX`.
pub fn exponential_backoff(attempt: u32) -> (r: u32)
    ensures
        attempt < 32 ==> r == pow2(attempt as nat),
        attempt >= 32 ==> r == u32::MAX,
{
    if attempt >= 32 {
        return u32::MAX;
    }
    proof {
        lemma2_to64();
    }
    let mut r: u32 = 1;
    let mut k: u32 = 0;
    while k < attempt
        invariant
            k <= attempt < 32,
            r == pow2(k as nat),
        decreases attempt - k,
    {
        proof {
            lemma_pow2_unfold((k + 1) as nat);
            lemma_pow2_strictly_increases((k + 1) as nat, 32);
            lemma2_to64();
        }
        r = r * 2;
        k = k + 1;
    }
    r
}

/// The state and retry count after `n` consecutive failed executions of a
/// task that starts with `retries` retries.
pub open spec fn after_failures(retries: u32, max_retries: u32, n: nat) -> (TaskState, u32)
    decreases n,
{
    if n == 0 {
        (TaskState::New, retries)
    } else {
        let prev = after_failures(retries, max_retries, (n - 1) as nat);
        if prev.0 == TaskState::Failed {
            prev
        } else {
            failure_outcome(prev.1, max_retries)
        }
    }
}

/// A task whose execution always fails is retried on each of its first
/// `max_retries` failures, and fails for good on the next one, with
/// `max_retries` retries recorded.
pub proof fn lemma_retry_ceiling(max_retries: u32, n: nat)
    ensures
        1 <= n <= max_retries ==> after_failures(0, max_retries, n) == (
        TaskState::Retried,
        n as u32,
        ),
        n > max_retries ==> after_failures(0, max_retries, n) == (
        TaskState::Failed,
        max_retries,
        ),
    decreases n,
{
    if n > 0 {
        lemma_retry_ceiling(max_retries, (n - 1) as nat);
        let prev = after_failures(0, max_retries, (n - 1) as nat);
        if n == 1 {
            assert(prev == (TaskState::New, 0u32));
        } else if n - 1 <= max_retries {
            assert(prev == (TaskState::Retried, (n - 1) as u32));
        } else {
            assert(prev == (TaskState::Failed, max_retries));
        }
        assert(after_failures(0, max_retries, n) == if prev.0 == TaskState::Failed {
            prev
        } else {
            failure_outcome(prev.1, max_retries)
        });
    }
}

} // verus!
