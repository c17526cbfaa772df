use vstd::prelude::*;
use crate::retention::RetentionMode;
use crate::sleep::{SleepParams, increased_period};
use crate::store::{
    Task,
    TaskStore,
    claim_step,
    claimed_task,
    completed_task,
    has_id,
    held,
    ready,
    record_step,
    unique_ids,
};
use crate::task::{FangError, TaskState};

verus! {

/// One poll of a worker: claims the ready task due earliest. On a claim the
/// idle period goes back to its minimum; on an empty poll it grows by one
/// step, capped at its maximum, and the caller sleeps for it before polling
/// again.
pub fn poll(store: &mut TaskStore, sleep: &mut SleepParams, now: i64) -> (r: Option<u64>)
    requires
        old(store).wf(),
    ensures
        final(store).wf(),
        claim_step(old(store).tasks(), final(store).tasks(), now, r),
        r is Some ==> final(sleep).sleep_period == old(sleep).min_sleep_period,
        r is None ==> final(sleep).sleep_period == increased_period(
            old(sleep).sleep_period as nat,
            old(sleep).max_sleep_period as nat,
            old(sleep).sleep_step as nat,
        ),
        final(sleep).min_sleep_period == old(sleep).min_sleep_period,
        final(sleep).max_sleep_period == old(sleep).max_sleep_period,
        final(sleep).sleep_step == old(sleep).sleep_step,
        old(sleep).wf() ==> final(sleep).wf(),
{
    let r = store.claim_next_ready(now);
    match r {
        Some(_) => sleep.maybe_reset_sleep_period(),
        None => sleep.maybe_increase_sleep_period(),
    }
    r
}

/// A claim keeps identifiers distinct, keeps every held task held, and
/// hands out a task that no worker held before.
pub proof fn lemma_claim_step(before: Seq<Task>, after: Seq<Task>, now: i64, r: Option<u64>)
    requires
        unique_ids(before),
        claim_step(before, after, now, r),
    ensures
        unique_ids(after),
        forall|id: u64| held(before, id) ==> held(after, id),
        r matches Some(id) ==> held(after, id) && !held(before, id),
{
    if let Some(id) = r {
        let i = choose|i: int|
            {
                &&& 0 <= i < before.len()
                &&& #[trigger] before[i].id == id
                &&& ready(before[i], now)
                &&& after == before.update(i, claimed_task(before[i], now))
                &&& forall|j: int|
                    0 <= j < before.len() && ready(#[trigger] before[j], now)
                        ==> before[i].scheduled_at <= before[j].scheduled_at
            };
        assert forall|a: int| 0 <= a < after.len() implies #[trigger] after[a].id == before[a].id by {}
        assert forall|x: u64| held(before, x) implies held(after, x) by {
            let j = choose|j: int|
                0 <= j < before.len() && #[trigger] before[j].id == x && before[j].state
                    == TaskState::InProgress;
            assert(j != i);
            assert(after[j].id == x);
        }
        assert(after[i].id == id && after[i].state == TaskState::InProgress);
        if held(before, id) {
            let j = choose|j: int|
                0 <= j < before.len() && #[trigger] before[j].id == id && before[j].state
                    == TaskState::InProgress;
            assert(i == j);
        }
    }
}

/// Workers racing over one store never receive the same task twice while it
/// is held: along any sequence of claims, each claim that hands out a task
/// hands out a different one, and the task stays held afterwards. A claim
/// comes back empty only when no task is ready.
pub proof fn lemma_claims_exclusive(
    states: Seq<Seq<Task>>,
    nows: Seq<i64>,
    claims: Seq<Option<u64>>,
)
    requires
        states.len() == claims.len() + 1,
        nows.len() == claims.len(),
        unique_ids(states[0]),
        forall|k: int|
            0 <= k < claims.len() ==> claim_step(
                #[trigger] states[k],
                states[k + 1],
                nows[k],
                claims[k],
            ),
    ensures
        forall|k1: int, k2: int|
            0 <= k1 < k2 < claims.len() && claims[k1] is Some ==> #[trigger] claims[k1]
                != #[trigger] claims[k2],
        forall|k: int|
            0 <= k < claims.len() && claims[k] is Some ==> held(
                states[claims.len() as int],
                #[trigger] claims[k]->Some_0,
            ),
        forall|k: int, i: int|
            0 <= k < claims.len() && claims[k] is None && 0 <= i < states[k].len() ==> !ready(
                #[trigger] states[k][i],
                nows[k],
            ),
    decreases claims.len(),
{
    let n = claims.len() as int;
    if n > 0 {
        let states0 = states.drop_last();
        let nows0 = nows.drop_last();
        let claims0 = claims.drop_last();
        assert forall|k: int| 0 <= k < claims0.len() implies claim_step(
            #[trigger] states0[k],
            states0[k + 1],
            nows0[k],
            claims0[k],
        ) by {
            assert(states0[k] == states[k] && states0[k + 1] == states[k + 1]);
        }
        lemma_claims_exclusive(states0, nows0, claims0);
        lemma_unique_along(states, nows, claims, n - 1);
        assert(claim_step(states[n - 1], states[n], nows[n - 1], claims[n - 1]));
        lemma_claim_step(states[n - 1], states[n], nows[n - 1], claims[n - 1]);
        assert forall|k1: int, k2: int|
            0 <= k1 < k2 < n && claims[k1] is Some implies #[trigger] claims[k1]
                != #[trigger] claims[k2] by {
            if k2 < n - 1 {
                assert(claims0[k1] == claims[k1] && claims0[k2] == claims[k2]);
            } else {
                assert(claims0[k1] == claims[k1]);
                assert(held(states0[n - 1], claims[k1]->Some_0));
            }
        }
        assert forall|k: int| 0 <= k < n && claims[k] is Some implies held(
            states[n],
            #[trigger] claims[k]->Some_0,
        ) by {
            if k < n - 1 {
                assert(claims0[k] == claims[k]);
                assert(held(states0[n - 1], claims[k]->Some_0));
            }
        }
        assert forall|k: int, i: int|
            0 <= k < n && claims[k] is None && 0 <= i < states[k].len() implies !ready(
            #[trigger] states[k][i],
            nows[k],
        ) by {
            assert(claim_step(states[k], states[k + 1], nows[k], claims[k]));
        }
    }
}

/// Identifiers stay distinct along a sequence of claims.
proof fn lemma_unique_along(
    states: Seq<Seq<Task>>,
    nows: Seq<i64>,
    claims: Seq<Option<u64>>,
    n: int,
)
    requires
        states.len() == claims.len() + 1,
        nows.len() == claims.len(),
        unique_ids(states[0]),
        0 <= n <= claims.len(),
        forall|k: int|
            0 <= k < claims.len() ==> claim_step(
                #[trigger] states[k],
                states[k + 1],
                nows[k],
                claims[k],
            ),
    ensures
        unique_ids(states[n]),
    decreases n,
{
    if n > 0 {
        lemma_unique_along(states, nows, claims, n - 1);
        assert(claim_step(states[n - 1], states[n], nows[n - 1], claims[n - 1]));
        lemma_claim_step(states[n - 1], states[n], nows[n - 1], claims[n - 1]);
    }
}

/// One step of a run of workers over a shared store.
pub enum RunStep {
    /// a poll at `now` whose claim returned `got`
    Claim { now: i64, got: Option<u64> },
    /// a successful execution of task `id`, recorded at `now` under `mode`
    Succeeded { id: u64, backoff: u32, mode: RetentionMode, now: i64 },
}

/// The relation between the tasks before and after `step`.
pub open spec fn run_step(before: Seq<Task>, after: Seq<Task>, step: RunStep) -> bool {
    match step {
        RunStep::Claim { now, got } => claim_step(before, after, now, got),
        RunStep::Succeeded { id, backoff, mode, now } => record_step(
            before,
            after,
            id,
            Ok(()),
            backoff,
            mode,
            now,
            TaskState::Finished,
        ),
    }
}

/// Whether every task of `s` with identifier `id` is held or finished.
pub open spec fn spent(s: Seq<Task>, id: u64) -> bool {
    forall|i: int|
        0 <= i < s.len() && #[trigger] s[i].id == id ==> s[i].state == TaskState::InProgress
            || s[i].state == TaskState::Finished
}

/// The task claimed by `step`, if it claimed one.
pub open spec fn claimed_by(step: RunStep) -> Option<u64> {
    match step {
        RunStep::Claim { got, .. } => got,
        RunStep::Succeeded { .. } => None,
    }
}

/// One step keeps identifiers distinct and every claimed task held or
/// finished, and the task it claims was neither before.
proof fn lemma_run_step(before: Seq<Task>, after: Seq<Task>, step: RunStep)
    requires
        unique_ids(before),
        run_step(before, after, step),
    ensures
        unique_ids(after),
        forall|x: u64| spent(before, x) ==> spent(after, x),
        claimed_by(step) matches Some(id) ==> spent(after, id) && !spent(before, id),
{
    match step {
        RunStep::Claim { now, got } => {
            lemma_claim_step(before, after, now, got);
            if let Some(id) = got {
                let i = choose|i: int|
                    {
                        &&& 0 <= i < before.len()
                        &&& #[trigger] before[i].id == id
                        &&& ready(before[i], now)
                        &&& after == before.update(i, claimed_task(before[i], now))
                        &&& forall|j: int|
                            0 <= j < before.len() && ready(#[trigger] before[j], now)
                                ==> before[i].scheduled_at <= before[j].scheduled_at
                    };
                assert forall|x: u64| spent(before, x) implies spent(after, x) by {
                    assert forall|j: int| 0 <= j < after.len() && #[trigger] after[j].id == x implies after[j].state
                        == TaskState::InProgress || after[j].state == TaskState::Finished by {
                        if j != i {
                            assert(after[j] == before[j]);
                        }
                    }
                }
                assert forall|j: int| 0 <= j < after.len() && #[trigger] after[j].id == id implies after[j].state
                    == TaskState::InProgress || after[j].state == TaskState::Finished by {
                    if j != i {
                        assert(after[i].id == id);
                    }
                }
                assert(before[i].id == id);
            } else {
                assert forall|x: u64| spent(before, x) implies spent(after, x) by {}
            }
        },
        RunStep::Succeeded { id, backoff, mode, now } => {
            let i = choose|i: int|
                {
                    &&& 0 <= i < before.len()
                    &&& #[trigger] before[i].id == id
                    &&& before[i].state == TaskState::InProgress
                    &&& TaskState::Finished == completed_task(before[i], Ok(()), backoff, now).state
                    &&& if crate::store::swept(mode, TaskState::Finished) {
                        after == before.remove(i)
                    } else {
                        after == before.update(i, completed_task(before[i], Ok(()), backoff, now))
                    }
                };
            if crate::store::swept(mode, TaskState::Finished) {
                assert forall|a: int, b: int|
                    0 <= a < after.len() && 0 <= b < after.len() && a != b implies #[trigger] after[a].id
                        != #[trigger] after[b].id by {
                    let a0 = if a < i { a } else { a + 1 };
                    let b0 = if b < i { b } else { b + 1 };
                    assert(after[a] == before[a0]);
                    assert(after[b] == before[b0]);
                }
                assert forall|x: u64| spent(before, x) implies spent(after, x) by {
                    assert forall|j: int| 0 <= j < after.len() && #[trigger] after[j].id == x implies after[j].state
                        == TaskState::InProgress || after[j].state == TaskState::Finished by {
                        let j0 = if j < i { j } else { j + 1 };
                        assert(after[j] == before[j0]);
                    }
                }
            } else {
                assert forall|a: int| 0 <= a < after.len() implies #[trigger] after[a].id == before[a].id by {}
                assert forall|x: u64| spent(before, x) implies spent(after, x) by {
                    assert forall|j: int| 0 <= j < after.len() && #[trigger] after[j].id == x implies after[j].state
                        == TaskState::InProgress || after[j].state == TaskState::Finished by {
                        if j != i {
                            assert(after[j] == before[j]);
                        }
                    }
                }
            }
        },
    }
}

/// Identifiers stay distinct, and every task claimed so far stays held or
/// finished, along the first `n` steps of a run.
proof fn lemma_run_prefix(states: Seq<Seq<Task>>, steps: Seq<RunStep>, n: int)
    requires
        states.len() == steps.len() + 1,
        unique_ids(states[0]),
        0 <= n <= steps.len(),
        forall|k: int| 0 <= k < steps.len() ==> run_step(#[trigger] states[k], states[k + 1], steps[k]),
    ensures
        unique_ids(states[n]),
        forall|k: int| 0 <= k < n && claimed_by(steps[k]) is Some ==> spent(states[n], #[trigger] claimed_by(steps[k])->Some_0),
        forall|k1: int, k2: int|
            0 <= k1 < k2 < n && claimed_by(steps[k1]) is Some ==> #[trigger] claimed_by(steps[k1])
                != #[trigger] claimed_by(steps[k2]),
    decreases n,
{
    if n > 0 {
        lemma_run_prefix(states, steps, n - 1);
        assert(run_step(states[n - 1], states[n], steps[n - 1]));
        lemma_run_step(states[n - 1], states[n], steps[n - 1]);
        assert forall|k1: int, k2: int|
            0 <= k1 < k2 < n && claimed_by(steps[k1]) is Some implies #[trigger] claimed_by(steps[k1])
                != #[trigger] claimed_by(steps[k2]) by {
            if k2 == n - 1 {
                assert(spent(states[n - 1], claimed_by(steps[k1])->Some_0));
            }
        }
    }
}

/// Workers racing over one store, each claiming tasks and recording their
/// successful executions in any interleaving, never execute a task twice:
/// along any run, each claim that hands out a task hands out a different
/// one, and every task handed out ends up held or finished.
pub proof fn lemma_run_executes_at_most_once(states: Seq<Seq<Task>>, steps: Seq<RunStep>)
    requires
        states.len() == steps.len() + 1,
        unique_ids(states[0]),
        forall|k: int| 0 <= k < steps.len() ==> run_step(#[trigger] states[k], states[k + 1], steps[k]),
    ensures
        forall|k1: int, k2: int|
            0 <= k1 < k2 < steps.len() && claimed_by(steps[k1]) is Some ==> #[trigger] claimed_by(
                steps[k1],
            ) != #[trigger] claimed_by(steps[k2]),
        forall|k: int|
            0 <= k < steps.len() && claimed_by(steps[k]) is Some ==> spent(
                states[steps.len() as int],
                #[trigger] claimed_by(steps[k])->Some_0,
            ),
{
    lemma_run_prefix(states, steps, steps.len() as int);
}

/// No task is lost: when a poll at `now` finds nothing to claim, every task
/// that is due by `now` is held or has ended; once no task is held either,
/// every due task has ended.
pub proof fn lemma_none_lost(before: Seq<Task>, after: Seq<Task>, now: i64)
    requires
        claim_step(before, after, now, None),
    ensures
        forall|i: int|
            0 <= i < after.len() && #[trigger] after[i].scheduled_at <= now ==> after[i].state
                == TaskState::InProgress || after[i].state.is_terminal(),
        (forall|i: int| 0 <= i < after.len() ==> #[trigger] after[i].state != TaskState::InProgress)
            ==> forall|i: int|
            0 <= i < after.len() && #[trigger] after[i].scheduled_at <= now
                ==> after[i].state.is_terminal(),
{
    assert forall|i: int|
        0 <= i < after.len() && #[trigger] after[i].scheduled_at <= now implies after[i].state
            == TaskState::InProgress || after[i].state.is_terminal() by {
        assert(!ready(before[i], now));
    }
}

/// A task that ended, `Finished` or `Failed`, is never claimed again.
pub proof fn lemma_ended_never_claimed(t: Task, now: i64)
    requires
        t.state.is_terminal(),
    ensures
        !ready(t, now),
{
}

/// Retention: once the outcome of an execution that ended the task is
/// recorded, the task is gone under `RemoveAll`, gone under `RemoveFinished`
/// only if it finished, and kept under `KeepAll`.
pub proof fn lemma_retention(
    before: Seq<Task>,
    after: Seq<Task>,
    id: u64,
    outcome: Result<(), FangError>,
    backoff: u32,
    mode: RetentionMode,
    now: i64,
    st: TaskState,
)
    requires
        unique_ids(before),
        record_step(before, after, id, outcome, backoff, mode, now, st),
        st.is_terminal(),
    ensures
        has_id(after, id) <==> !mode.removes(st),
        mode == RetentionMode::RemoveAll ==> !has_id(after, id),
        mode == RetentionMode::RemoveFinished ==> (has_id(after, id) <==> st == TaskState::Failed),
        mode == RetentionMode::KeepAll ==> has_id(after, id),
{
    let i = choose|i: int|
        {
            &&& 0 <= i < before.len()
            &&& #[trigger] before[i].id == id
            &&& before[i].state == TaskState::InProgress
            &&& st == crate::store::completed_task(before[i], outcome, backoff, now).state
            &&& if crate::store::swept(mode, st) {
                after == before.remove(i)
            } else {
                after == before.update(i, crate::store::completed_task(before[i], outcome, backoff, now))
            }
        };
    if mode.removes(st) {
        if has_id(after, id) {
            let a = choose|a: int| 0 <= a < after.len() && #[trigger] after[a].id == id;
            let a0 = if a < i { a } else { a + 1 };
            assert(after[a] == before[a0]);
        }
    } else {
        assert(after[i].id == id);
    }
}

} // verus!
