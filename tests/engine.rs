use fang::retention::RetentionMode;
use fang::schedule::{resolve, resolve_once, CronError, Scheduled};
use fang::scheduler::{schedule_task, EnqueueError};
use fang::sleep::SleepParams;
use fang::store::{StoreError, TaskStore};
use fang::task::{exponential_backoff, on_failure, FangError, TaskState};
use fang::worker::poll;

const T0: i64 = 1_700_000_000;

fn failure(text: &str) -> Result<(), FangError> {
    Err(FangError { description: text.to_string() })
}

#[test]
fn sleep_defaults() {
    let p = SleepParams::default();
    assert_eq!(p.sleep_period, 5000);
    assert_eq!(p.max_sleep_period, 15000);
    assert_eq!(p.min_sleep_period, 5000);
    assert_eq!(p.sleep_step, 5000);
}

#[test]
fn idle_backoff_grows_linearly_up_to_max() {
    for k in 0..6u64 {
        let mut p = SleepParams::default();
        for _ in 0..k {
            p.maybe_increase_sleep_period();
        }
        assert_eq!(p.sleep_period, std::cmp::min(5000 + 5000 * k, 15000));
    }
}

#[test]
fn claim_resets_backoff() {
    let mut p = SleepParams::default();
    p.maybe_increase_sleep_period();
    p.maybe_increase_sleep_period();
    assert_eq!(p.sleep_period, 15000);
    p.maybe_reset_sleep_period();
    assert_eq!(p.sleep_period, 5000);
    p.maybe_reset_sleep_period();
    assert_eq!(p.sleep_period, 5000);
}

#[test]
fn backoff_step_is_capped_at_max() {
    let mut p = SleepParams::new(5, 15, 5, 7).unwrap();
    p.maybe_increase_sleep_period();
    assert_eq!(p.sleep_period, 12);
    p.maybe_increase_sleep_period();
    assert_eq!(p.sleep_period, 15);
    p.maybe_increase_sleep_period();
    assert_eq!(p.sleep_period, 15);
}

#[test]
fn sleep_params_reject_bad_bounds() {
    assert!(SleepParams::new(4, 15, 5, 5).is_none());
    assert!(SleepParams::new(16, 15, 5, 5).is_none());
    assert!(SleepParams::new(5, 15, 5, 0).is_none());
    assert!(SleepParams::new(5, 5, 5, 1).is_some());
}

#[test]
fn retention_rules() {
    assert_eq!(RetentionMode::default(), RetentionMode::RemoveAll);
    assert!(RetentionMode::RemoveAll.should_remove(TaskState::Finished));
    assert!(RetentionMode::RemoveAll.should_remove(TaskState::Failed));
    assert!(RetentionMode::RemoveFinished.should_remove(TaskState::Finished));
    assert!(!RetentionMode::RemoveFinished.should_remove(TaskState::Failed));
    assert!(!RetentionMode::KeepAll.should_remove(TaskState::Finished));
    assert!(!RetentionMode::KeepAll.should_remove(TaskState::Failed));
}

#[test]
fn failure_transition() {
    assert_eq!(on_failure(0, 3), (TaskState::Retried, 1));
    assert_eq!(on_failure(2, 3), (TaskState::Retried, 3));
    assert_eq!(on_failure(3, 3), (TaskState::Failed, 3));
    assert_eq!(on_failure(0, 0), (TaskState::Failed, 0));
}

#[test]
fn terminal_states() {
    assert!(TaskState::Finished.terminal());
    assert!(TaskState::Failed.terminal());
    assert!(!TaskState::New.terminal());
    assert!(!TaskState::Retried.terminal());
    assert!(!TaskState::InProgress.terminal());
}

#[test]
fn resolve_without_schedule() {
    assert!(matches!(resolve(&None, T0), Err(CronError::TaskNotSchedulableError)));
}

#[test]
fn resolve_once_in_the_past_fails() {
    let r = resolve(&Some(Scheduled::ScheduleOnce(T0 - 1)), T0);
    assert!(matches!(r, Err(CronError::NoTimestampsError)));
    assert!(matches!(resolve_once(T0, T0), Err(CronError::NoTimestampsError)));
}

#[test]
fn resolve_once_in_the_future() {
    let r = resolve(&Some(Scheduled::ScheduleOnce(T0 + 7)), T0);
    assert_eq!(r.unwrap(), T0 + 7);
}

#[test]
fn resolve_cron_every_twenty_seconds() {
    let s = Some(Scheduled::CronPattern("0/20 * * * * * *".to_string()));
    for t in [T0, T0 + 1, T0 + 19, T0 + 20, 0, 5] {
        let first = resolve(&s, t).unwrap();
        assert!(first > t && first <= t + 20);
        assert_eq!(first % 20, 0);
        let second = resolve(&s, first).unwrap();
        assert_eq!(second, first + 20);
        let third = resolve(&s, second).unwrap();
        assert_eq!(third, second + 20);
    }
}

#[test]
fn resolve_cron_malformed() {
    let s = Some(Scheduled::CronPattern("not a cron expression".to_string()));
    assert!(matches!(resolve(&s, T0), Err(CronError::LibraryError(_))));
}

#[test]
fn resolve_cron_with_no_future_match() {
    let s = Some(Scheduled::CronPattern("0 0 0 1 1 * 2001".to_string()));
    assert!(matches!(resolve(&s, T0), Err(CronError::NoTimestampsError)));
}

#[test]
fn insert_and_claim() {
    let mut store = TaskStore::new();
    let a = store.insert("mail".to_string(), "{}".to_string(), T0, 3, None, T0).unwrap();
    let b = store.insert("mail".to_string(), "{}".to_string(), T0, 3, None, T0).unwrap();
    assert_ne!(a, b);
    assert_eq!(store.len(), 2);
    let t = store.get(a).unwrap();
    assert_eq!(t.state, TaskState::New);
    assert_eq!(t.retries, 0);
    assert_eq!(t.kind, "mail");
    assert_eq!(store.claim_next_ready(T0), Some(a));
    assert_eq!(store.get(a).unwrap().state, TaskState::InProgress);
    assert_eq!(store.claim_next_ready(T0), Some(b));
    assert_eq!(store.claim_next_ready(T0), None);
}

#[test]
fn claim_waits_for_scheduled_time() {
    let mut store = TaskStore::new();
    let late = store.insert("k".to_string(), String::new(), T0 + 100, 0, None, T0).unwrap();
    let early = store.insert("k".to_string(), String::new(), T0 + 50, 0, None, T0).unwrap();
    assert_eq!(store.claim_next_ready(T0), None);
    assert_eq!(store.claim_next_ready(T0 + 200), Some(early));
    assert_eq!(store.claim_next_ready(T0 + 200), Some(late));
}

#[test]
fn duplicate_uniq_key_is_rejected_until_done() {
    let mut store = TaskStore::new();
    let key = Some("only-one".to_string());
    let a = store.insert("k".to_string(), String::new(), T0, 0, key.clone(), T0).unwrap();
    let dup = store.insert("k".to_string(), String::new(), T0, 0, key.clone(), T0);
    assert_eq!(dup, Err(StoreError::DuplicateUniqKey));
    assert_eq!(store.len(), 1);
    assert_eq!(store.claim_next_ready(T0), Some(a));
    assert_eq!(store.record_outcome(a, &Ok(()), 0, RetentionMode::KeepAll, T0), Ok(TaskState::Finished));
    assert!(store.insert("k".to_string(), String::new(), T0, 0, key, T0).is_ok());
}

#[test]
fn record_outcome_requires_claim() {
    let mut store = TaskStore::new();
    let a = store.insert("k".to_string(), String::new(), T0, 0, None, T0).unwrap();
    assert_eq!(store.record_outcome(a, &Ok(()), 0, RetentionMode::KeepAll, T0), Err(StoreError::NotInProgress));
    assert_eq!(store.record_outcome(a + 1, &Ok(()), 0, RetentionMode::KeepAll, T0), Err(StoreError::NotInProgress));
    assert_eq!(store.get(a).unwrap().state, TaskState::New);
}

#[test]
fn success_clears_error_message() {
    let mut store = TaskStore::new();
    let a = store.insert("k".to_string(), String::new(), T0, 1, None, T0).unwrap();
    store.claim_next_ready(T0);
    assert_eq!(store.record_outcome(a, &failure("boom"), 0, RetentionMode::KeepAll, T0), Ok(TaskState::Retried));
    assert_eq!(store.get(a).unwrap().error_message, Some("boom".to_string()));
    assert_eq!(store.claim_next_ready(T0), Some(a));
    assert_eq!(store.record_outcome(a, &Ok(()), 0, RetentionMode::KeepAll, T0 + 1), Ok(TaskState::Finished));
    let t = store.get(a).unwrap();
    assert_eq!(t.error_message, None);
    assert_eq!(t.updated_at, T0 + 1);
}

#[test]
fn retry_is_delayed_by_backoff() {
    let mut store = TaskStore::new();
    let a = store.insert("k".to_string(), String::new(), T0, 2, None, T0).unwrap();
    store.claim_next_ready(T0);
    store.record_outcome(a, &failure("x"), 30, RetentionMode::KeepAll, T0).unwrap();
    let t = store.get(a).unwrap();
    assert_eq!(t.state, TaskState::Retried);
    assert_eq!(t.retries, 1);
    assert_eq!(t.scheduled_at, T0 + 30);
    assert_eq!(store.claim_next_ready(T0 + 29), None);
    assert_eq!(store.claim_next_ready(T0 + 30), Some(a));
}

#[test]
fn retry_delay_saturates() {
    let mut store = TaskStore::new();
    let a = store.insert("k".to_string(), String::new(), 0, 2, None, 0).unwrap();
    store.claim_next_ready(i64::MAX - 5);
    store.record_outcome(a, &failure("x"), 30, RetentionMode::KeepAll, i64::MAX - 5).unwrap();
    assert_eq!(store.get(a).unwrap().scheduled_at, i64::MAX);
}

fn run_to_end(mode: RetentionMode, outcome: Result<(), FangError>) -> (TaskStore, u64, TaskState) {
    let mut store = TaskStore::new();
    let a = store.insert("k".to_string(), String::new(), T0, 0, None, T0).unwrap();
    assert_eq!(store.claim_next_ready(T0), Some(a));
    let st = store.record_outcome(a, &outcome, 0, mode, T0).unwrap();
    (store, a, st)
}

#[test]
fn retention_after_completion() {
    let (s, a, st) = run_to_end(RetentionMode::RemoveAll, Ok(()));
    assert_eq!(st, TaskState::Finished);
    assert!(s.get(a).is_none());
    let (s, a, st) = run_to_end(RetentionMode::RemoveAll, failure("x"));
    assert_eq!(st, TaskState::Failed);
    assert!(s.get(a).is_none());
    let (s, a, _) = run_to_end(RetentionMode::RemoveFinished, Ok(()));
    assert!(s.get(a).is_none());
    let (s, a, _) = run_to_end(RetentionMode::RemoveFinished, failure("x"));
    assert_eq!(s.get(a).unwrap().state, TaskState::Failed);
    let (s, a, _) = run_to_end(RetentionMode::KeepAll, Ok(()));
    assert_eq!(s.get(a).unwrap().state, TaskState::Finished);
    let (s, a, _) = run_to_end(RetentionMode::KeepAll, failure("x"));
    assert_eq!(s.get(a).unwrap().state, TaskState::Failed);
}

#[test]
fn retry_ceiling_then_failed() {
    let mut store = TaskStore::new();
    let a = store.insert("k".to_string(), String::new(), T0, 3, None, T0).unwrap();
    let mut attempts = 0;
    while let Some(id) = store.claim_next_ready(T0) {
        attempts += 1;
        let st = store.record_outcome(id, &failure("always"), 0, RetentionMode::KeepAll, T0).unwrap();
        if attempts <= 3 {
            assert_eq!(st, TaskState::Retried);
            assert_eq!(store.get(a).unwrap().retries, attempts);
        } else {
            assert_eq!(st, TaskState::Failed);
        }
        assert!(attempts <= 4);
    }
    assert_eq!(attempts, 4);
    let t = store.get(a).unwrap();
    assert_eq!(t.state, TaskState::Failed);
    assert_eq!(t.retries, 3);
    assert_eq!(t.error_message, Some("always".to_string()));
    assert_eq!(store.claim_next_ready(T0 + 1000), None);
}

#[test]
fn delete_task() {
    let mut store = TaskStore::new();
    let a = store.insert("k".to_string(), String::new(), T0, 0, None, T0).unwrap();
    assert!(store.delete(a));
    assert!(!store.delete(a));
    assert_eq!(store.len(), 0);
}

#[test]
fn racing_workers_execute_each_task_once() {
    for workers in 1..5usize {
        let mut store = TaskStore::new();
        let mut ids = Vec::new();
        for m in 0..7i64 {
            ids.push(store.insert("k".to_string(), String::new(), T0 + m, 0, None, T0).unwrap());
        }
        let mut sleeps = vec![SleepParams::default(); workers];
        let mut holding: Vec<Option<u64>> = vec![None; workers];
        let mut counts = std::collections::HashMap::new();
        for round in 0..40usize {
            let w = round % workers;
            if let Some(id) = holding[w].take() {
                store.record_outcome(id, &Ok(()), 0, RetentionMode::KeepAll, T0 + 10).unwrap();
            } else if let Some(id) = poll(&mut store, &mut sleeps[w], T0 + 10) {
                *counts.entry(id).or_insert(0) += 1;
                holding[w] = Some(id);
                assert_eq!(sleeps[w].sleep_period, 5000);
            } else {
                assert!(sleeps[w].sleep_period > 5000);
            }
        }
        for w in 0..workers {
            if let Some(id) = holding[w].take() {
                store.record_outcome(id, &Ok(()), 0, RetentionMode::KeepAll, T0 + 10).unwrap();
            }
            assert_eq!(poll(&mut store, &mut sleeps[w], T0 + 10), None);
        }
        for id in &ids {
            assert_eq!(counts.get(id), Some(&1));
        }
        assert_eq!(counts.len(), ids.len());
        assert!(store.ids_in_state(TaskState::New).is_empty());
        assert!(store.ids_in_state(TaskState::InProgress).is_empty());
        assert_eq!(store.ids_in_state(TaskState::Finished).len(), ids.len());
    }
}

#[test]
fn poll_backs_off_when_idle() {
    let mut store = TaskStore::new();
    let mut sleep = SleepParams::default();
    assert_eq!(poll(&mut store, &mut sleep, T0), None);
    assert_eq!(sleep.sleep_period, 10000);
    assert_eq!(poll(&mut store, &mut sleep, T0), None);
    assert_eq!(poll(&mut store, &mut sleep, T0), None);
    assert_eq!(sleep.sleep_period, 15000);
    let a = store.insert("k".to_string(), String::new(), T0, 0, None, T0).unwrap();
    assert_eq!(poll(&mut store, &mut sleep, T0), Some(a));
    assert_eq!(sleep.sleep_period, 5000);
}

#[test]
fn schedule_task_inserts_next_instant() {
    let mut store = TaskStore::new();
    let s = Some(Scheduled::CronPattern("0/20 * * * * * *".to_string()));
    let id = schedule_task(&mut store, "tick".to_string(), String::new(), &s, 0, None, T0).unwrap();
    let at = store.get(id).unwrap().scheduled_at;
    assert!(at > T0 && at <= T0 + 20);
    let once = Some(Scheduled::ScheduleOnce(T0 + 7));
    let id = schedule_task(&mut store, "once".to_string(), String::new(), &once, 0, None, T0).unwrap();
    assert_eq!(store.get(id).unwrap().scheduled_at, T0 + 7);
    let past = Some(Scheduled::ScheduleOnce(T0 - 7));
    let r = schedule_task(&mut store, "once".to_string(), String::new(), &past, 0, None, T0);
    assert!(matches!(r, Err(EnqueueError::Schedule(CronError::NoTimestampsError))));
    assert_eq!(store.len(), 2);
}

#[test]
fn exponential_backoff_doubles() {
    assert_eq!(exponential_backoff(0), 1);
    assert_eq!(exponential_backoff(3), 8);
    assert_eq!(exponential_backoff(31), 1 << 31);
    assert_eq!(exponential_backoff(32), u32::MAX);
    assert_eq!(exponential_backoff(100), u32::MAX);
}

#[test]
fn list_ids_by_state() {
    let mut store = TaskStore::new();
    let a = store.insert("k".to_string(), String::new(), T0, 0, None, T0).unwrap();
    let b = store.insert("k".to_string(), String::new(), T0, 0, None, T0).unwrap();
    let c = store.insert("k".to_string(), String::new(), T0, 0, None, T0).unwrap();
    assert_eq!(store.claim_next_ready(T0), Some(a));
    assert_eq!(store.ids_in_state(TaskState::New), vec![b, c]);
    assert_eq!(store.ids_in_state(TaskState::InProgress), vec![a]);
    assert_eq!(store.ids_in_state(TaskState::Failed), Vec::<u64>::new());
}

#[test]
fn sweep_applies_retention_to_ended_tasks() {
    let build = || {
        let mut store = TaskStore::new();
        let ok = store.insert("k".to_string(), String::new(), T0, 0, None, T0).unwrap();
        let bad = store.insert("k".to_string(), String::new(), T0, 0, None, T0).unwrap();
        let waiting = store.insert("k".to_string(), String::new(), T0 + 99, 0, None, T0).unwrap();
        store.claim_next_ready(T0);
        store.claim_next_ready(T0);
        store.record_outcome(ok, &Ok(()), 0, RetentionMode::KeepAll, T0).unwrap();
        store.record_outcome(bad, &failure("x"), 0, RetentionMode::KeepAll, T0).unwrap();
        (store, ok, bad, waiting)
    };
    let (mut s, ok, bad, waiting) = build();
    s.sweep(RetentionMode::KeepAll);
    assert_eq!(s.len(), 3);
    s.sweep(RetentionMode::RemoveFinished);
    assert!(s.get(ok).is_none());
    assert!(s.get(bad).is_some());
    assert!(s.get(waiting).is_some());
    let (mut s, _, _, waiting) = build();
    s.sweep(RetentionMode::RemoveAll);
    assert_eq!(s.len(), 1);
    assert!(s.get(waiting).is_some());
}

#[test]
fn root_reexports() {
    let _: fang::SleepParams = fang::SleepParams::default();
    assert_eq!(fang::RetentionMode::default(), fang::RetentionMode::RemoveAll);
    let e = fang::FangError { description: "d".to_string() };
    assert_eq!(e.description, "d");
    assert!(matches!(fang::Scheduled::ScheduleOnce(1), fang::Scheduled::ScheduleOnce(1)));
    assert!(matches!(fang::CronError::NoTimestampsError, fang::CronError::NoTimestampsError));
}

#[test]
fn default_idle_period_stays_below_cron_period() {
    let p = SleepParams::default();
    let s = Some(Scheduled::CronPattern("0/20 * * * * * *".to_string()));
    let r = resolve(&s, T0 + 3).unwrap();
    assert!(T0 + 3 < r && r <= T0 + 23);
    assert!(p.max_sleep_period < 20_000);
    assert_eq!(resolve(&s, r).unwrap(), r + 20);
}

#[test]
fn schedule_task_rejects_duplicate_key() {
    let mut store = TaskStore::new();
    let once = Some(Scheduled::ScheduleOnce(T0 + 7));
    let key = Some("k1".to_string());
    assert!(schedule_task(&mut store, "once".to_string(), String::new(), &once, 0, key.clone(), T0).is_ok());
    let r = schedule_task(&mut store, "once".to_string(), String::new(), &once, 0, key, T0);
    assert!(matches!(r, Err(EnqueueError::Store(StoreError::DuplicateUniqKey))));
    assert_eq!(store.len(), 1);
}
