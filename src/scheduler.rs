use vstd::prelude::*;
use crate::schedule::{CronError, Scheduled, cron_accepts, cron_next, in_range, once_outcome, resolve};
use crate::store::{StoreError, Task, TaskStore, key_pending};
use crate::task::TaskState;

verus! {

/// Why a scheduled task could not be enqueued.
#[derive(Debug)]
pub enum EnqueueError {
    /// the schedule yields no next instant
    Schedule(CronError),
    /// the store refused the task
    Store(StoreError),
}

/// The next instant strictly after `now` that `schedule` yields, if any.
pub open spec fn next_instant(schedule: Option<Scheduled>, now: i64) -> Option<i64> {
    match schedule {
        None => None,
        Some(Scheduled::ScheduleOnce(at)) => once_outcome(at, now),
        Some(Scheduled::CronPattern(expr)) => if cron_accepts(expr@) {
            match cron_next(expr@, now as int) {
                Some(n) => Some(n as i64),
                None => None,
            }
        } else {
            None
        },
    }
}

/// Inserts a fresh task for the next instant that `schedule` yields after
/// `now`; past tasks of the schedule are left as they are.
pub fn schedule_task(
    store: &mut TaskStore,
    kind: String,
    payload: String,
    schedule: &Option<Scheduled>,
    max_retries: u32,
    uniq_key: Option<String>,
    now: i64,
) -> (r: Result<u64, EnqueueError>)
    requires
        old(store).wf(),
        in_range(now),
    ensures
        final(store).wf(),
        next_instant(*schedule, now) is None <==> (r matches Err(EnqueueError::Schedule(_))),
        r is Ok <==> next_instant(*schedule, now) is Some && !(uniq_key matches Some(k)
            && key_pending(old(store).tasks(), k@)) && !old(store).exhausted(),
        r is Err ==> final(store).tasks() == old(store).tasks(),
        next_instant(*schedule, now) matches Some(at) ==> {
            &&& (r matches Err(EnqueueError::Store(StoreError::DuplicateUniqKey))) <==> (
            uniq_key matches Some(k) && key_pending(old(store).tasks(), k@))
            &&& (r matches Err(EnqueueError::Store(StoreError::IdsExhausted))) <==> !(
            uniq_key matches Some(k) && key_pending(old(store).tasks(), k@)) && old(store).exhausted()
            &&& r matches Ok(id) ==> final(store).tasks() == old(store).tasks().push(
                Task {
                    id,
                    kind,
                    payload,
                    scheduled_at: at,
                    state: TaskState::New,
                    retries: 0,
                    max_retries,
                    error_message: None,
                    created_at: now,
                    updated_at: now,
                    uniq_key,
                },
            )
        },
{
    match resolve(schedule, now) {
        Err(e) => Err(EnqueueError::Schedule(e)),
        Ok(at) => {
            match store.insert(kind, payload, at, max_retries, uniq_key, now) {
                Ok(id) => Ok(id),
                Err(e) => Err(EnqueueError::Store(e)),
            }
        },
    }
}

} // verus!
