use vstd::prelude::*;
use crate::retention::RetentionMode;
use crate::task::{FangError, TaskState, failure_outcome, on_failure};

verus! {

/// A unit of work kept in the store.
#[derive(Debug)]
pub struct Task {
    /// unique identifier, assigned at insertion
    pub id: u64,
    /// which executable capability handles the task
    pub kind: String,
    /// serialized data of the task, never interpreted here
    pub payload: String,
    /// the instant (seconds since the Unix epoch) before which the task must not be claimed
    pub scheduled_at: i64,
    /// the lifecycle state
    pub state: TaskState,
    /// how many times the task has been retried
    pub retries: u32,
    /// how many retries the task may have
    pub max_retries: u32,
    /// the description of the last failure, cleared on success
    pub error_message: Option<String>,
    /// when the task was inserted
    pub created_at: i64,
    /// when the task last changed state
    pub updated_at: i64,
    /// a key that at most one unfinished task may hold
    pub uniq_key: Option<String>,
}

/// Errors of the store's operations.
#[derive(Clone, Copy, Debug, PartialEq, Eq, Structural)]
pub enum StoreError {
    /// an unfinished task already holds the unique key
    DuplicateUniqKey,
    /// every identifier has been handed out
    IdsExhausted,
    /// no task with that identifier is held by a worker
    NotInProgress,
}

/// Whether `t` may be claimed at `now`.
pub open spec fn ready(t: Task, now: i64) -> bool {
    &&& t.state == TaskState::New || t.state == TaskState::Retried
    &&& t.scheduled_at <= now
}

/// Whether a worker holds the task with identifier `id`.
pub open spec fn held(s: Seq<Task>, id: u64) -> bool {
    exists|i: int| 0 <= i < s.len() && #[trigger] s[i].id == id && s[i].state == TaskState::InProgress
}

/// Whether some task of `s` carries identifier `id`.
pub open spec fn has_id(s: Seq<Task>, id: u64) -> bool {
    exists|i: int| 0 <= i < s.len() && #[trigger] s[i].id == id
}

/// Whether the identifiers of `s` are pairwise distinct.
pub open spec fn unique_ids(s: Seq<Task>) -> bool {
    forall|i: int, j: int| 0 <= i < s.len() && 0 <= j < s.len() && i != j ==> #[trigger] s[i].id != #[trigger] s[j].id
}

/// Whether an unfinished task of `s` holds the unique key `key`.
pub open spec fn key_pending(s: Seq<Task>, key: Seq<char>) -> bool {
    exists|i: int|
        0 <= i < s.len() && !s[i].state.is_terminal() && (#[trigger] s[i].uniq_key matches Some(k)
            && k@ == key)
}

/// The identifiers of the tasks of `s` that are in state `st`, in order.
pub open spec fn ids_in(s: Seq<Task>, st: TaskState) -> Seq<u64>
    decreases s.len(),
{
    if s.len() == 0 {
        Seq::empty()
    } else if s.last().state == st {
        ids_in(s.drop_last(), st).push(s.last().id)
    } else {
        ids_in(s.drop_last(), st)
    }
}

/// `t` as a worker holds it after claiming it at `now`.
pub open spec fn claimed_task(t: Task, now: i64) -> Task {
    Task { state: TaskState::InProgress, updated_at: now, ..t }
}

/// The relation between the tasks before and after a claim at `now` that returned `r`.
pub open spec fn claim_step(before: Seq<Task>, after: Seq<Task>, now: i64, r: Option<u64>) -> bool {
    match r {
        None => {
            &&& after == before
            &&& forall|i: int| 0 <= i < before.len() ==> !ready(#[trigger] before[i], now)
        },
        Some(id) => exists|i: int|
            {
                &&& 0 <= i < before.len()
                &&& #[trigger] before[i].id == id
                &&& ready(before[i], now)
                &&& after == before.update(i, claimed_task(before[i], now))
                &&& forall|j: int|
                    0 <= j < before.len() && ready(#[trigger] before[j], now)
                        ==> before[i].scheduled_at <= before[j].scheduled_at
            },
    }
}

/// The saturating sum `now + delay`.
pub open spec fn delayed(now: i64, delay: u32) -> i64 {
    if now + delay > i64::MAX { i64::MAX } else { (now + delay) as i64 }
}

/// `t` after its execution, ending at `now` with `outcome`; a retry is
/// scheduled `backoff` seconds after `now`.
pub open spec fn completed_task(t: Task, outcome: Result<(), FangError>, backoff: u32, now: i64) -> Task {
    match outcome {
        Ok(_) => Task { state: TaskState::Finished, error_message: None, updated_at: now, ..t },
        Err(e) => {
            let (st, retries) = failure_outcome(t.retries, t.max_retries);
            if st == TaskState::Retried {
                Task {
                    state: st,
                    retries,
                    scheduled_at: delayed(now, backoff),
                    error_message: Some(e.description),
                    updated_at: now,
                    ..t
                }
            } else {
                Task { state: st, error_message: Some(e.description), updated_at: now, ..t }
            }
        },
    }
}

/// The relation between the tasks before and after the outcome of task `id`
/// was recorded as ending in `st`, under retention `mode`.
pub open spec fn record_step(
    before: Seq<Task>,
    after: Seq<Task>,
    id: u64,
    outcome: Result<(), FangError>,
    backoff: u32,
    mode: RetentionMode,
    now: i64,
    st: TaskState,
) -> bool {
    exists|i: int|
        {
            &&& 0 <= i < before.len()
            &&& #[trigger] before[i].id == id
            &&& before[i].state == TaskState::InProgress
            &&& st == completed_task(before[i], outcome, backoff, now).state
            &&& if swept(mode, st) {
                after == before.remove(i)
            } else {
                after == before.update(i, completed_task(before[i], outcome, backoff, now))
            }
        }
}

/// Removing a task keeps identifiers distinct and below `bound`, and drops
/// the removed identifier.
proof fn lemma_remove_keeps_ids(s: Seq<Task>, i: int, bound: u64)
    requires
        unique_ids(s),
        forall|a: int| 0 <= a < s.len() ==> #[trigger] s[a].id < bound,
        0 <= i < s.len(),
    ensures
        unique_ids(s.remove(i)),
        forall|a: int|
            0 <= a < s.remove(i).len() ==> #[trigger] s.remove(i)[a].id < bound && s.remove(i)[a].id
                != s[i].id,
{
    let r = s.remove(i);
    assert forall|a: int| 0 <= a < r.len() implies #[trigger] r[a].id < bound && r[a].id != s[i].id by {
        let a0 = if a < i { a } else { a + 1 };
        assert(r[a] == s[a0]);
    }
    assert forall|a: int, b: int|
        0 <= a < r.len() && 0 <= b < r.len() && a != b implies #[trigger] r[a].id
            != #[trigger] r[b].id by {
        let a0 = if a < i { a } else { a + 1 };
        let b0 = if b < i { b } else { b + 1 };
        assert(r[a] == s[a0]);
        assert(r[b] == s[b0]);
    }
}

/// Whether a task in state `st` is deleted by a sweep under `mode`.
pub open spec fn swept(mode: RetentionMode, st: TaskState) -> bool {
    st.is_terminal() && mode.removes(st)
}

/// The tasks of `s` that a sweep under `mode` keeps, in order.
pub open spec fn kept(s: Seq<Task>, mode: RetentionMode) -> Seq<Task>
    decreases s.len(),
{
    if s.len() == 0 {
        Seq::empty()
    } else if swept(mode, s.last().state) {
        kept(s.drop_last(), mode)
    } else {
        kept(s.drop_last(), mode).push(s.last())
    }
}

/// The durable queue of tasks: it hands each ready task to one worker at a time.
pub struct TaskStore {
    tasks: Vec<Task>,
    next_id: u64,
}

impl TaskStore {
    /// The tasks held, in insertion order.
    pub closed spec fn tasks(&self) -> Seq<Task> {
        self.tasks@
    }

    /// Identifiers are distinct and below the next one to hand out.
    pub closed spec fn wf(&self) -> bool {
        &&& unique_ids(self.tasks@)
        &&& forall|i: int| 0 <= i < self.tasks@.len() ==> #[trigger] self.tasks@[i].id < self.next_id
    }

    /// An empty store.
    pub fn new() -> (r: TaskStore)
        ensures
            r.wf(),
            !r.exhausted(),
            r.tasks() == Seq::<Task>::empty(),
    {
        TaskStore { tasks: Vec::new(), next_id: 0 }
    }

    /// The number of tasks held.
    pub fn len(&self) -> (r: usize)
        ensures
            r == self.tasks().len(),
    {
        self.tasks.len()
    }

    /// The position of the task with identifier `id`, if it is held.
    pub fn position(&self, id: u64) -> (r: Option<usize>)
        requires
            self.wf(),
        ensures
            r is None <==> !has_id(self.tasks(), id),
            r matches Some(i) ==> i < self.tasks().len() && self.tasks()[i as int].id == id,
    {
        let mut i: usize = 0;
        while i < self.tasks.len()
            invariant
                i <= self.tasks@.len(),
                forall|j: int| 0 <= j < i ==> #[trigger] self.tasks@[j].id != id,
            decreases self.tasks@.len() - i,
        {
            if self.tasks[i].id == id {
                return Some(i);
            }
            i = i + 1;
        }
        None
    }

    /// An empty task, held only while a stored task is being rewritten.
    fn placeholder() -> (r: Task) {
        Task {
            id: 0,
            kind: String::new(),
            payload: String::new(),
            scheduled_at: 0,
            state: TaskState::New,
            retries: 0,
            max_retries: 0,
            error_message: None,
            created_at: 0,
            updated_at: 0,
            uniq_key: None,
        }
    }

    /// Whether an unfinished task holds the unique key `key`.
    pub fn has_pending_key(&self, key: &String) -> (r: bool)
        ensures
            r == key_pending(self.tasks(), key@),
    {
        let mut i: usize = 0;
        while i < self.tasks.len()
            invariant
                i <= self.tasks@.len(),
                forall|j: int|
                    0 <= j < i ==> !(!self.tasks@[j].state.is_terminal() && (
                    #[trigger] self.tasks@[j].uniq_key matches Some(k) && k@ == key@)),
            decreases self.tasks@.len() - i,
        {
            if !self.tasks[i].state.terminal() {
                match &self.tasks[i].uniq_key {
                    Some(k) => {
                        if *k == *key {
                            return true;
                        }
                    },
                    None => {},
                }
            }
            i = i + 1;
        }
        false
    }

    /// Whether every identifier has been handed out.
    pub closed spec fn exhausted(&self) -> bool {
        self.next_id == u64::MAX
    }

    /// Inserts a new task, due at `scheduled_at`, and returns its identifier.
    /// Fails when an unfinished task holds the same unique key.
    pub fn insert(
        &mut self,
        kind: String,
        payload: String,
        scheduled_at: i64,
        max_retries: u32,
        uniq_key: Option<String>,
        now: i64,
    ) -> (r: Result<u64, StoreError>)
        requires
            old(self).wf(),
        ensures
            final(self).wf(),
            r == Err::<u64, StoreError>(StoreError::DuplicateUniqKey) <==> (uniq_key matches Some(k)
                && key_pending(old(self).tasks(), k@)),
            r == Err::<u64, StoreError>(StoreError::IdsExhausted) <==> !(uniq_key matches Some(k)
                && key_pending(old(self).tasks(), k@)) && old(self).exhausted(),
            r is Ok <==> !(uniq_key matches Some(k) && key_pending(old(self).tasks(), k@)) && !old(
                self,
            ).exhausted(),
            r is Err ==> final(self).tasks() == old(self).tasks(),
            r matches Ok(id) ==> {
                &&& !has_id(old(self).tasks(), id)
                &&& final(self).tasks() == old(self).tasks().push(
                    Task {
                        id,
                        kind,
                        payload,
                        scheduled_at,
                        state: TaskState::New,
                        retries: 0,
                        max_retries,
                        error_message: None,
                        created_at: now,
                        updated_at: now,
                        uniq_key,
                    },
                )
            },
    {
        let duplicate = match &uniq_key {
            Some(k) => self.has_pending_key(k),
            None => false,
        };
        if duplicate {
            return Err(StoreError::DuplicateUniqKey);
        }
        if self.next_id == u64::MAX {
            return Err(StoreError::IdsExhausted);
        }
        let id = self.next_id;
        self.tasks.push(
            Task {
                id,
                kind,
                payload,
                scheduled_at,
                state: TaskState::New,
                retries: 0,
                max_retries,
                error_message: None,
                created_at: now,
                updated_at: now,
                uniq_key,
            },
        );
        self.next_id = self.next_id + 1;
        Ok(id)
    }

    /// Claims the ready task due earliest: it becomes `InProgress` and is
    /// handed to the caller alone. `None` when no task is ready at `now`.
    pub fn claim_next_ready(&mut self, now: i64) -> (r: Option<u64>)
        requires
            old(self).wf(),
        ensures
            final(self).wf(),
            claim_step(old(self).tasks(), final(self).tasks(), now, r),
    {
        let mut best: Option<usize> = None;
        let mut i: usize = 0;
        while i < self.tasks.len()
            invariant
                i <= self.tasks@.len(),
                best is None ==> forall|j: int| 0 <= j < i ==> !ready(#[trigger] self.tasks@[j], now),
                best matches Some(b) ==> {
                    &&& b < i
                    &&& ready(self.tasks@[b as int], now)
                    &&& forall|j: int|
                        0 <= j < i && ready(#[trigger] self.tasks@[j], now)
                            ==> self.tasks@[b as int].scheduled_at <= self.tasks@[j].scheduled_at
                },
            decreases self.tasks@.len() - i,
        {
            let t = &self.tasks[i];
            if (t.state == TaskState::New || t.state == TaskState::Retried) && t.scheduled_at <= now {
                match best {
                    None => {
                        best = Some(i);
                    },
                    Some(b) => {
                        if t.scheduled_at < self.tasks[b].scheduled_at {
                            best = Some(i);
                        }
                    },
                }
            }
            i = i + 1;
        }
        match best {
            None => None,
            Some(b) => {
                let ghost before = self.tasks@;
                let mut t = Self::placeholder();
                self.tasks.set_and_swap(b, &mut t);
                t.state = TaskState::InProgress;
                t.updated_at = now;
                let id = t.id;
                self.tasks.set_and_swap(b, &mut t);
                assert(self.tasks@ == before.update(b as int, claimed_task(before[b as int], now)));
                assert(before[b as int].id == id);
                Some(id)
            },
        }
    }

    /// Writes back the outcome of the execution of task `id`: `Finished` on
    /// success; on failure `Retried`, due `backoff` seconds after `now`, while
    /// retries remain, else `Failed`. A task that ended is then deleted if
    /// `mode` says so. Fails when no worker holds the task.
    pub fn record_outcome(
        &mut self,
        id: u64,
        outcome: &Result<(), FangError>,
        backoff: u32,
        mode: RetentionMode,
        now: i64,
    ) -> (r: Result<TaskState, StoreError>)
        requires
            old(self).wf(),
        ensures
            final(self).wf(),
            r is Err <==> !held(old(self).tasks(), id),
            r is Err ==> r == Err::<TaskState, StoreError>(StoreError::NotInProgress)
                && final(self).tasks() == old(self).tasks(),
            r matches Ok(st) ==> record_step(
                old(self).tasks(),
                final(self).tasks(),
                id,
                *outcome,
                backoff,
                mode,
                now,
                st,
            ),
    {
        let i = match self.position(id) {
            Some(i) => i,
            None => {
                return Err(StoreError::NotInProgress);
            },
        };
        if self.tasks[i].state != TaskState::InProgress {
            assert forall|j: int| 0 <= j < self.tasks@.len() && #[trigger] self.tasks@[j].id == id implies self.tasks@[j].state != TaskState::InProgress by {
                assert(j == i);
            }
            return Err(StoreError::NotInProgress);
        }
        let ghost before = self.tasks@;
        let mut t = Self::placeholder();
        self.tasks.set_and_swap(i, &mut t);
        match outcome {
            Ok(_) => {
                t.state = TaskState::Finished;
                t.error_message = None;
            },
            Err(e) => {
                let (st, retries) = on_failure(t.retries, t.max_retries);
                t.state = st;
                if st == TaskState::Retried {
                    t.retries = retries;
                    t.scheduled_at = if now > i64::MAX - (backoff as i64) {
                        i64::MAX
                    } else {
                        now + backoff as i64
                    };
                }
                t.error_message = Some(e.description.clone());
            },
        }
        t.updated_at = now;
        let st = t.state;
        assert(t == completed_task(before[i as int], *outcome, backoff, now));
        if st.terminal() && mode.should_remove(st) {
            self.tasks.set_and_swap(i, &mut t);
            self.tasks.remove(i);
            assert(self.tasks@ == before.remove(i as int));
        } else {
            self.tasks.set_and_swap(i, &mut t);
            assert(self.tasks@ == before.update(i as int, completed_task(before[i as int], *outcome, backoff, now)));
        }
        assert(before[i as int].id == id && before[i as int].state == TaskState::InProgress);
        proof {
            if st.is_terminal() && mode.removes(st) {
                lemma_remove_keeps_ids(before, i as int, self.next_id);
            } else {
                assert forall|a: int| 0 <= a < self.tasks@.len() implies #[trigger] self.tasks@[a].id
                    == before[a].id by {}
            }
        }
        Ok(st)
    }

    /// Deletes the task with identifier `id`; `false` when it is not held.
    pub fn delete(&mut self, id: u64) -> (r: bool)
        requires
            old(self).wf(),
        ensures
            final(self).wf(),
            r == has_id(old(self).tasks(), id),
            !has_id(final(self).tasks(), id),
            r ==> exists|i: int|
                0 <= i < old(self).tasks().len() && #[trigger] old(self).tasks()[i].id == id
                    && final(self).tasks() == old(self).tasks().remove(i),
            !r ==> final(self).tasks() == old(self).tasks(),
    {
        match self.position(id) {
            None => false,
            Some(i) => {
                let ghost before = self.tasks@;
                self.tasks.remove(i);
                proof {
                    lemma_remove_keeps_ids(before, i as int, self.next_id);
                }
                true
            },
        }
    }

    /// The retention sweep: deletes every task that ended in a state that
    /// `mode` removes, and keeps the others in order.
    pub fn sweep(&mut self, mode: RetentionMode)
        requires
            old(self).wf(),
        ensures
            final(self).wf(),
            final(self).tasks() == kept(old(self).tasks(), mode),
    {
        let ghost orig = self.tasks@;
        let mut i: usize = 0;
        let ghost mut j: int = 0;
        while i < self.tasks.len()
            invariant
                0 <= j <= orig.len(),
                i == kept(orig.take(j), mode).len(),
                self.tasks@ == kept(orig.take(j), mode) + orig.skip(j),
                unique_ids(self.tasks@),
                forall|a: int| 0 <= a < self.tasks@.len() ==> #[trigger] self.tasks@[a].id < self.next_id,
            decreases self.tasks@.len() - i,
        {
            assert(orig.take(j + 1).drop_last() == orig.take(j));
            assert(self.tasks@[i as int] == orig[j]);
            assert(orig.take(j + 1).last() == orig[j]);
            let st = self.tasks[i].state;
            if st.terminal() && mode.should_remove(st) {
                let ghost before = self.tasks@;
                self.tasks.remove(i);
                proof {
                    lemma_remove_keeps_ids(before, i as int, self.next_id);
                    assert(self.tasks@ =~= kept(orig.take(j + 1), mode) + orig.skip(j + 1));
                }
            } else {
                assert(self.tasks@ =~= kept(orig.take(j + 1), mode) + orig.skip(j + 1));
                i = i + 1;
            }
            proof {
                j = j + 1;
            }
        }
        assert(orig.take(j) == orig) by {
            assert(orig.skip(j).len() == 0);
        }
        assert(self.tasks@ =~= kept(orig, mode));
    }

    /// Lists the identifiers of the tasks in state `st`, in insertion order.
    pub fn ids_in_state(&self, st: TaskState) -> (r: Vec<u64>)
        ensures
            r@ == ids_in(self.tasks(), st),
    {
        let mut r: Vec<u64> = Vec::new();
        let mut i: usize = 0;
        while i < self.tasks.len()
            invariant
                i <= self.tasks@.len(),
                r@ == ids_in(self.tasks@.take(i as int), st),
            decreases self.tasks@.len() - i,
        {
            assert(self.tasks@.take(i as int + 1).drop_last() == self.tasks@.take(i as int));
            if self.tasks[i].state == st {
                r.push(self.tasks[i].id);
            }
            i = i + 1;
        }
        assert(self.tasks@.take(i as int) == self.tasks@);
        r
    }

    /// The task with identifier `id`, if it is held.
    pub fn get(&self, id: u64) -> (r: Option<&Task>)
        requires
            self.wf(),
        ensures
            r is None <==> !has_id(self.tasks(), id),
            r matches Some(t) ==> exists|i: int|
                0 <= i < self.tasks().len() && self.tasks()[i] == *t && #[trigger] self.tasks()[i].id == id,
    {
        match self.position(id) {
            Some(i) => Some(&self.tasks[i]),
            None => None,
        }
    }
}

} // verus!
