//! The in-process default store: the backend a queue-triggered job falls
//! back to when its locator names none.
//!
//! The store is shaped like the key-value backends it stands beside:
//! pending jobs live in a first-in-first-out list, running jobs and each
//! terminal state live in their own ordered lists whose order is the order
//! of completion, and every record carries its timestamps from the store's
//! own monotone clock. The store owns the state transitions it is asked
//! for — push, pull, complete — and answers the uniform query contract:
//! snapshot statistics, paginated per-state listings (newest first) and the
//! worker roster (most recently seen first).

use vstd::prelude::*;
use crate::model::{Filter, GetJobsResult, JobState, Stat, Worker};
use crate::facade::{page_bounds, page_window, JOB_PAGE_SIZE, WORKER_PAGE_SIZE};

verus! {

/// One persisted unit of work.
#[derive(Debug)]
pub struct JobRecord {
    /// Unique within the store; fetchable by it.
    pub identifier: u64,
    /// The pushed payload, opaque to the store.
    pub payload: String,
    pub state: JobState,
    /// How many times a poller has pulled this job.
    pub attempt_count: u64,
    /// The store's clock when the job was pushed.
    pub enqueued_at: u64,
    /// The store's clock when the job was last pulled (its push time until
    /// then).
    pub run_at: u64,
    /// The store's clock when the job settled (succeeded, failed or died).
    pub done_at: Option<u64>,
}

/// Two records carry the same data, character for character.
pub open spec fn record_matches(a: JobRecord, b: JobRecord) -> bool {
    &&& a.identifier == b.identifier
    &&& a.payload@ == b.payload@
    &&& a.state == b.state
    &&& a.attempt_count == b.attempt_count
    &&& a.enqueued_at == b.enqueued_at
    &&& a.run_at == b.run_at
    &&& a.done_at == b.done_at
}

/// Two record sequences match position by position.
pub open spec fn records_match(a: Seq<JobRecord>, b: Seq<JobRecord>) -> bool {
    a.len() == b.len() && forall|i: int| 0 <= i < a.len() ==> record_matches(a[i], #[trigger] b[i])
}

impl JobRecord {
    /// An owned copy of this record.
    pub fn duplicate(&self) -> (r: JobRecord)
        ensures
            record_matches(r, *self),
    {
        JobRecord {
            identifier: self.identifier,
            payload: self.payload.clone(),
            state: self.state,
            attempt_count: self.attempt_count,
            enqueued_at: self.enqueued_at,
            run_at: self.run_at,
            done_at: self.done_at,
        }
    }
}

/// A job has settled: it reached a state that stamps a completion time.
pub open spec fn is_settled(st: JobState) -> bool {
    st is Success || st is Failed || st is Dead
}

/// How many records of `s` are in state `st`.
pub open spec fn count_state(s: Seq<JobRecord>, st: JobState) -> nat
    decreases s.len(),
{
    if s.len() == 0 {
        0
    } else {
        count_state(s.drop_last(), st) + if s.last().state == st {
            1nat
        } else {
            0nat
        }
    }
}

/// Every record is in exactly one state, so the six per-state counts
/// partition the records.
pub proof fn lemma_count_partition(s: Seq<JobRecord>)
    ensures
        count_state(s, JobState::Pending) + count_state(s, JobState::Scheduled) + count_state(
            s,
            JobState::Running,
        ) + count_state(s, JobState::Dead) + count_state(s, JobState::Failed) + count_state(
            s,
            JobState::Success,
        ) == s.len(),
    decreases s.len(),
{
    if s.len() > 0 {
        lemma_count_partition(s.drop_last());
    }
}

/// Why the store refused an operation.
#[derive(Clone, Copy, Debug, PartialEq, Eq, Structural)]
pub enum StoreError {
    /// No record carries the given identifier.
    NotFound,
    /// The record is not in a state the requested transition starts from.
    InvalidTransition,
}

/// The in-process job store for one namespace.
pub struct MemoryStorage {
    /// The isolation key of the one job this store serves.
    pub namespace: String,
    /// Every record ever pushed, in push order; a record's identifier is
    /// its position here.
    pub jobs: Vec<JobRecord>,
    /// Positions of pending (and scheduled) records, oldest first.
    pub pending: Vec<usize>,
    /// Positions of running records, in pull order.
    pub running: Vec<usize>,
    /// Positions of succeeded records, in completion order.
    pub success: Vec<usize>,
    /// Positions of failed records, in completion order.
    pub failed: Vec<usize>,
    /// Positions of dead records, in completion order.
    pub dead: Vec<usize>,
    /// The monotone logical clock every timestamp is drawn from.
    pub clock: u64,
    /// The roster: `(worker identifier, last seen)`, least recently seen
    /// first.
    pub workers: Vec<(String, u64)>,
}

impl MemoryStorage {
    /// The list that holds the records of one state.
    pub open spec fn state_list(self, st: JobState) -> Seq<usize> {
        match st {
            JobState::Pending => self.pending@,
            JobState::Scheduled => self.pending@,
            JobState::Running => self.running@,
            JobState::Success => self.success@,
            JobState::Failed => self.failed@,
            JobState::Dead => self.dead@,
        }
    }

    /// `l` is a well-formed state list: every entry is a live position
    /// whose record is in `st1` or `st2`, and no position repeats.
    pub open spec fn list_ok(self, l: Seq<usize>, st1: JobState, st2: JobState) -> bool {
        &&& forall|k: int| 0 <= k < l.len() ==> #[trigger] l[k] < self.jobs@.len()
            && (self.jobs@[l[k] as int].state == st1 || self.jobs@[l[k] as int].state == st2)
        &&& forall|k1: int, k2: int| 0 <= k1 < k2 < l.len() ==> l[k1] != l[k2]
    }

    /// `l` is ordered by completion time, oldest first.
    pub open spec fn completion_ordered(self, l: Seq<usize>) -> bool {
        forall|k1: int, k2: int| 0 <= k1 < k2 < l.len() ==> done_key(
            #[trigger] self.jobs@[l[k1] as int],
        ) <= done_key(#[trigger] self.jobs@[l[k2] as int])
    }

    pub open spec fn wf(self) -> bool {
        &&& forall|i: int| 0 <= i < self.jobs@.len() ==> (#[trigger] self.jobs@[i]).identifier
            == i
        &&& forall|i: int| 0 <= i < self.jobs@.len() ==> ((#[trigger] self.jobs@[i]).done_at
            is Some <==> is_settled(self.jobs@[i].state))
        &&& forall|i: int| 0 <= i < self.jobs@.len() ==> (#[trigger] self.jobs@[i]).enqueued_at
            < self.clock && self.jobs@[i].run_at < self.clock && self.jobs@[i].attempt_count
            < self.clock && (self.jobs@[i].done_at matches Some(t) ==> t < self.clock)
        &&& self.list_ok(self.pending@, JobState::Pending, JobState::Scheduled)
        &&& self.list_ok(self.running@, JobState::Running, JobState::Running)
        &&& self.list_ok(self.success@, JobState::Success, JobState::Success)
        &&& self.list_ok(self.failed@, JobState::Failed, JobState::Failed)
        &&& self.list_ok(self.dead@, JobState::Dead, JobState::Dead)
        &&& forall|i: int| 0 <= i < self.jobs@.len() ==> self.state_list(
            (#[trigger] self.jobs@[i]).state,
        ).contains(i as usize)
        &&& self.completion_ordered(self.success@)
        &&& self.completion_ordered(self.failed@)
        &&& self.completion_ordered(self.dead@)
        &&& forall|k1: int, k2: int| 0 <= k1 < k2 < self.workers@.len()
            ==> (#[trigger] self.workers@[k1]).0@ != (#[trigger] self.workers@[k2]).0@
        &&& forall|k: int| 0 <= k < self.workers@.len() ==> (#[trigger] self.workers@[k]).1
            < self.clock
    }

    /// An empty store for one namespace.
    pub fn new(namespace: String) -> (r: Self)
        ensures
            r.wf(),
            r.namespace == namespace,
            r.jobs@.len() == 0,
            r.pending@.len() == 0,
            r.running@.len() == 0,
            r.success@.len() == 0,
            r.failed@.len() == 0,
            r.dead@.len() == 0,
            r.workers@.len() == 0,
            r.clock == 0,
    {
        MemoryStorage {
            namespace,
            jobs: Vec::new(),
            pending: Vec::new(),
            running: Vec::new(),
            success: Vec::new(),
            failed: Vec::new(),
            dead: Vec::new(),
            clock: 0,
            workers: Vec::new(),
        }
    }

    /// Persist one new pending record and return its identifier.
    pub fn push(&mut self, payload: String) -> (id: u64)
        requires
            old(self).wf(),
            old(self).clock < u64::MAX,
            old(self).jobs@.len() < usize::MAX,
        ensures
            final(self).wf(),
            id == old(self).jobs@.len(),
            final(self).jobs@.len() == old(self).jobs@.len() + 1,
            final(self).jobs@ == old(self).jobs@.push(final(self).jobs@.last()),
            final(self).jobs@.last().identifier == id,
            final(self).jobs@.last().payload@ == payload@,
            final(self).jobs@.last().state is Pending,
            final(self).jobs@.last().attempt_count == 0,
            final(self).jobs@.last().enqueued_at == old(self).clock,
            final(self).jobs@.last().run_at == old(self).clock,
            final(self).jobs@.last().done_at is None,
            final(self).pending@ == old(self).pending@.push(id as usize),
            final(self).running == old(self).running,
            final(self).success == old(self).success,
            final(self).failed == old(self).failed,
            final(self).dead == old(self).dead,
            final(self).workers == old(self).workers,
            final(self).namespace == old(self).namespace,
            final(self).clock == old(self).clock + 1,
    {
        let idx = self.jobs.len();
        let record = JobRecord {
            identifier: idx as u64,
            payload,
            state: JobState::Pending,
            attempt_count: 0,
            enqueued_at: self.clock,
            run_at: self.clock,
            done_at: None,
        };
        self.jobs.push(record);
        self.pending.push(idx);
        self.clock = self.clock + 1;
        proof {
            let s = *self;
            assert forall|i: int| 0 <= i < s.jobs@.len() implies s.state_list(
                (#[trigger] s.jobs@[i]).state,
            ).contains(i as usize) by {
                if i < s.jobs@.len() - 1 {
                    assert(old(self).state_list(old(self).jobs@[i].state).contains(i as usize));
                    if old(self).jobs@[i].state is Pending || old(self).jobs@[i].state
                        is Scheduled {
                        let k = choose|k: int|
                            0 <= k < old(self).pending@.len() && old(self).pending@[k] == i;
                        assert(s.pending@[k] == i);
                    }
                } else {
                    assert(s.pending@[s.pending@.len() - 1] == i);
                }
            }
        }
        idx as u64
    }

    /// The record carrying `id`, if the store holds one.
    pub fn fetch_by_id(&self, id: u64) -> (r: Option<&JobRecord>)
        requires
            self.wf(),
        ensures
            id < self.jobs@.len() ==> (r matches Some(j) && *j == self.jobs@[id as int]),
            id >= self.jobs@.len() ==> r is None,
    {
        if id < self.jobs.len() as u64 {
            Some(&self.jobs[id as usize])
        } else {
            None
        }
    }

    /// The statistics a snapshot must show: each record counted under
    /// exactly one of the five counts, with scheduled jobs counted as
    /// pending.
    pub open spec fn stats_model(self) -> Stat {
        Stat {
            pending: (count_state(self.jobs@, JobState::Pending) + count_state(
                self.jobs@,
                JobState::Scheduled,
            )) as usize,
            running: count_state(self.jobs@, JobState::Running) as usize,
            dead: count_state(self.jobs@, JobState::Dead) as usize,
            failed: count_state(self.jobs@, JobState::Failed) as usize,
            success: count_state(self.jobs@, JobState::Success) as usize,
        }
    }

    /// Snapshot statistics: one pass over the records, counted by state,
    /// with scheduled jobs counted as pending. The five counts always sum
    /// to the number of records the store holds: every record is counted
    /// under exactly one of them.
    pub fn stats(&self) -> (r: Stat)
        ensures
            r == self.stats_model(),
            r.total_spec() == self.jobs@.len(),
    {
        let n = self.jobs.len();
        let mut pending: usize = 0;
        let mut running: usize = 0;
        let mut dead: usize = 0;
        let mut failed: usize = 0;
        let mut success: usize = 0;
        let mut i: usize = 0;
        proof {
            assert(self.jobs@.subrange(0, 0) =~= Seq::<JobRecord>::empty());
        }
        while i < n
            invariant
                i <= n,
                n == self.jobs@.len(),
                pending == count_state(self.jobs@.subrange(0, i as int), JobState::Pending)
                    + count_state(self.jobs@.subrange(0, i as int), JobState::Scheduled),
                running == count_state(self.jobs@.subrange(0, i as int), JobState::Running),
                dead == count_state(self.jobs@.subrange(0, i as int), JobState::Dead),
                failed == count_state(self.jobs@.subrange(0, i as int), JobState::Failed),
                success == count_state(self.jobs@.subrange(0, i as int), JobState::Success),
                pending + running + dead + failed + success == i,
            decreases n - i,
        {
            let ghost pre = self.jobs@.subrange(0, i as int);
            proof {
                assert(self.jobs@.subrange(0, i + 1).drop_last() =~= pre);
                assert(self.jobs@.subrange(0, i + 1).last() == self.jobs@[i as int]);
            }
            match self.jobs[i].state {
                JobState::Pending => {
                    pending = pending + 1;
                },
                JobState::Scheduled => {
                    pending = pending + 1;
                },
                JobState::Running => {
                    running = running + 1;
                },
                JobState::Dead => {
                    dead = dead + 1;
                },
                JobState::Failed => {
                    failed = failed + 1;
                },
                JobState::Success => {
                    success = success + 1;
                },
            }
            i = i + 1;
        }
        proof {
            assert(self.jobs@.subrange(0, n as int) =~= self.jobs@);
        }
        Stat { pending, running, dead, failed, success }
    }

    /// Answer one read-API listing call: the snapshot statistics beside
    /// the requested page of jobs in the filtered state.
    pub fn get_jobs(&self, filter: &Filter) -> (r: GetJobsResult<JobRecord>)
        requires
            self.wf(),
        ensures
            r.stats == self.stats_model(),
            r.stats.total_spec() == self.jobs@.len(),
            records_match(
                r.jobs@,
                page_window(self.listing(filter.status), filter.page as int, JOB_PAGE_SIZE as int),
            ),
    {
        GetJobsResult { stats: self.stats(), jobs: self.list_jobs(filter.status, filter.page) }
    }

    /// Hand the oldest pending record to a poller: its state becomes
    /// `Running`, its attempt count grows by one and its run time is
    /// stamped now. `None` when nothing is pending.
    pub fn pull_next(&mut self) -> (r: Option<u64>)
        requires
            old(self).wf(),
            old(self).clock < u64::MAX,
        ensures
            final(self).wf(),
            old(self).pending@.len() == 0 ==> r is None && *final(self) == *old(self),
            old(self).pending@.len() > 0 ==> {
                let idx = old(self).pending@[0] as int;
                &&& r == Some(old(self).pending@[0] as u64)
                &&& final(self).pending@ == old(self).pending@.drop_first()
                &&& final(self).running@ == old(self).running@.push(old(self).pending@[0])
                &&& final(self).jobs@ == old(self).jobs@.update(idx, final(self).jobs@[idx])
                &&& final(self).jobs@[idx].state is Running
                &&& final(self).jobs@[idx].attempt_count == old(self).jobs@[idx].attempt_count
                    + 1
                &&& final(self).jobs@[idx].run_at == old(self).clock
                &&& final(self).jobs@[idx].identifier == old(self).jobs@[idx].identifier
                &&& final(self).jobs@[idx].payload == old(self).jobs@[idx].payload
                &&& final(self).jobs@[idx].enqueued_at == old(self).jobs@[idx].enqueued_at
                &&& final(self).jobs@[idx].done_at is None
                &&& final(self).success == old(self).success
                &&& final(self).failed == old(self).failed
                &&& final(self).dead == old(self).dead
                &&& final(self).workers == old(self).workers
                &&& final(self).namespace == old(self).namespace
                &&& final(self).clock == old(self).clock + 1
            },
    {
        if self.pending.len() == 0 {
            return None;
        }
        let nj = self.jobs.len();
        let idx = self.pending.remove(0);
        let rec = &mut self.jobs[idx];
        rec.state = JobState::Running;
        rec.attempt_count = rec.attempt_count + 1;
        rec.run_at = self.clock;
        self.running.push(idx);
        self.clock = self.clock + 1;
        proof {
            let pre = *old(self);
            let s = *self;
            assert forall|e: int| 0 <= e < pre.running@.len() implies pre.running@[e]
                != idx by {
                assert(pre.jobs@[pre.running@[e] as int].state is Running);
            }
            assert forall|i: int| 0 <= i < s.jobs@.len() implies s.state_list(
                (#[trigger] s.jobs@[i]).state,
            ).contains(i as usize) by {
                if i == idx {
                    assert(s.running@[s.running@.len() - 1] == idx);
                } else {
                    assert(pre.state_list(pre.jobs@[i].state).contains(i as usize));
                    let l0 = pre.state_list(pre.jobs@[i].state);
                    let k = choose|k: int| 0 <= k < l0.len() && l0[k] == i as usize;
                    if pre.jobs@[i].state is Pending || pre.jobs@[i].state is Scheduled {
                        assert(pre.pending@[k] == i as usize);
                        if k == 0 {
                            assert(false);
                        } else {
                            assert(s.pending@[k - 1] == i as usize);
                        }
                    } else if pre.jobs@[i].state is Running {
                        assert(s.running@[k] == i as usize);
                    } else {
                        assert(s.state_list(s.jobs@[i].state) == l0);
                        assert(l0[k] == i as usize);
                    }
                }
            }
        }
        Some(idx as u64)
    }

    /// Report how a pulled record's run ended: it settles in `outcome`
    /// (success, failure or death), stamped with its completion time. Only
    /// a running record can settle; anything else is refused unchanged.
    pub fn complete(&mut self, id: u64, outcome: JobState) -> (r: Result<(), StoreError>)
        requires
            old(self).wf(),
            old(self).clock < u64::MAX,
            is_settled(outcome),
        ensures
            final(self).wf(),
            (r matches Ok(u)) <==> id < old(self).jobs@.len() && old(self).jobs@[id as int].state
                is Running,
            (r == Err::<(), StoreError>(StoreError::NotFound)) <==> id >= old(self).jobs@.len(),
            (r == Err::<(), StoreError>(StoreError::InvalidTransition)) <==> (id < old(
                self,
            ).jobs@.len() && !(old(self).jobs@[id as int].state is Running)),
            r is Err ==> *final(self) == *old(self),
            r is Ok ==> {
                let idx = id as int;
                &&& final(self).jobs@ == old(self).jobs@.update(idx, final(self).jobs@[idx])
                &&& final(self).jobs@[idx].state == outcome
                &&& final(self).jobs@[idx].done_at == Some(old(self).clock)
                &&& final(self).jobs@[idx].identifier == old(self).jobs@[idx].identifier
                &&& final(self).jobs@[idx].payload == old(self).jobs@[idx].payload
                &&& final(self).jobs@[idx].attempt_count == old(self).jobs@[idx].attempt_count
                &&& final(self).jobs@[idx].enqueued_at == old(self).jobs@[idx].enqueued_at
                &&& final(self).jobs@[idx].run_at == old(self).jobs@[idx].run_at
                &&& final(self).pending == old(self).pending
                &&& (exists|k: int|
                    0 <= k < old(self).running@.len() && old(self).running@[k] == id as usize
                        && final(self).running@ == old(self).running@.remove(k))
                &&& final(self).state_list(outcome) == old(self).state_list(outcome).push(
                    id as usize,
                )
                &&& forall|st: JobState| is_settled(st) && st != outcome
                    ==> #[trigger] final(self).state_list(st) == old(self).state_list(st)
                &&& final(self).workers == old(self).workers
                &&& final(self).namespace == old(self).namespace
                &&& final(self).clock == old(self).clock + 1
            },
    {
        let nj = self.jobs.len();
        if id >= nj as u64 {
            return Err(StoreError::NotFound);
        }
        let idx = id as usize;
        let is_running = match self.jobs[idx].state {
            JobState::Running => true,
            _ => false,
        };
        if !is_running {
            return Err(StoreError::InvalidTransition);
        }
        let k = match index_of(&self.running, idx) {
            Some(k) => k,
            None => {
                proof {
                    assert(old(self).state_list(old(self).jobs@[idx as int].state).contains(idx));
                    let w = choose|w: int|
                        0 <= w < old(self).running@.len() && old(self).running@[w] == idx;
                    assert(old(self).running@[w] == idx);
                    assert(false);
                }
                return Err(StoreError::NotFound);
            },
        };
        self.running.remove(k);
        let stamp = self.clock;
        let rec = &mut self.jobs[idx];
        rec.state = outcome;
        rec.done_at = Some(stamp);
        match outcome {
            JobState::Success => self.success.push(idx),
            JobState::Failed => self.failed.push(idx),
            _ => self.dead.push(idx),
        }
        self.clock = self.clock + 1;
        proof {
            let pre = *old(self);
            let s = *self;
            pre.running@.remove_ensures(k as int);
            assert forall|e: int|
                0 <= e < pre.success@.len() implies pre.success@[e] != idx by {
                assert(pre.jobs@[pre.success@[e] as int].state is Success);
            }
            assert forall|e: int| 0 <= e < pre.failed@.len() implies pre.failed@[e] != idx by {
                assert(pre.jobs@[pre.failed@[e] as int].state is Failed);
            }
            assert forall|e: int| 0 <= e < pre.dead@.len() implies pre.dead@[e] != idx by {
                assert(pre.jobs@[pre.dead@[e] as int].state is Dead);
            }
            assert forall|e: int| 0 <= e < pre.pending@.len() implies pre.pending@[e]
                != idx by {
                assert(pre.jobs@[pre.pending@[e] as int].state is Pending || pre.jobs@[pre.pending@[e] as int].state is Scheduled);
            }
            assert forall|e: int| 0 <= e < s.running@.len() implies s.running@[e] != idx by {
                if e < k {
                    assert(s.running@[e] == pre.running@[e]);
                    if pre.running@[e] == idx {
                        assert(pre.running@[e] == pre.running@[k as int]);
                        assert(false);
                    }
                } else {
                    assert(s.running@[e] == pre.running@[e + 1]);
                    if pre.running@[e + 1] == idx {
                        assert(false);
                    }
                }
            }
            assert forall|i: int| 0 <= i < s.jobs@.len() implies s.state_list(
                (#[trigger] s.jobs@[i]).state,
            ).contains(i as usize) by {
                if i == idx as int {
                    let l1 = s.state_list(outcome);
                    assert(l1[l1.len() - 1] == idx);
                } else {
                    assert(pre.state_list(pre.jobs@[i].state).contains(i as usize));
                    let l0 = pre.state_list(pre.jobs@[i].state);
                    let w = choose|w: int| 0 <= w < l0.len() && l0[w] == i as usize;
                    if pre.jobs@[i].state is Running {
                        if w < k {
                            assert(s.running@[w] == i as usize);
                        } else if w == k {
                            assert(false);
                        } else {
                            assert(s.running@[w - 1] == i as usize);
                        }
                    } else if pre.jobs@[i].state == outcome {
                        assert(s.state_list(outcome)[w] == i as usize);
                    } else {
                        assert(s.state_list(s.jobs@[i].state) == l0);
                        assert(l0[w] == i as usize);
                    }
                }
            }
        }
        Ok(())
    }

    /// The records of one state, as its listing shows them: newest first —
    /// most recently completed for settled states, most recently enqueued
    /// or pulled otherwise.
    pub open spec fn listing(self, status: JobState) -> Seq<JobRecord> {
        self.state_list(status).reverse().map_values(|i: usize| self.jobs@[i as int])
    }

    /// One page of the records in `status`, newest first: page `page` of
    /// the listing, [`JOB_PAGE_SIZE`] records per page, 1-indexed; an
    /// out-of-range page is an empty listing, never an error.
    pub fn list_jobs(&self, status: JobState, page: i32) -> (r: Vec<JobRecord>)
        requires
            self.wf(),
        ensures
            records_match(r@, page_window(self.listing(status), page as int, JOB_PAGE_SIZE as int)),
    {
        let l: &Vec<usize> = match status {
            JobState::Pending => &self.pending,
            JobState::Scheduled => &self.pending,
            JobState::Running => &self.running,
            JobState::Success => &self.success,
            JobState::Failed => &self.failed,
            JobState::Dead => &self.dead,
        };
        let llen = l.len();
        proof {
            assert(self.listing(status).len() == llen);
        }
        let mut out: Vec<JobRecord> = Vec::new();
        match page_bounds(page, llen, JOB_PAGE_SIZE) {
            None => {
                proof {
                    assert(page_window(
                        self.listing(status),
                        page as int,
                        JOB_PAGE_SIZE as int,
                    ) =~= Seq::<JobRecord>::empty());
                }
            },
            Some((start, end)) => {
                let ghost win = page_window(self.listing(status), page as int, JOB_PAGE_SIZE as int);
                proof {
                    assert(win == self.listing(status).subrange(start as int, end as int));
                    assert(out@ =~= win.subrange(0, 0));
                }
                let mut j = start;
                while j < end
                    invariant
                        start <= j <= end,
                        end <= llen,
                        llen == l@.len(),
                        l@ == self.state_list(status),
                        self.wf(),
                        win == self.listing(status).subrange(start as int, end as int),
                        win.len() == end - start,
                        records_match(out@, win.subrange(0, j - start)),
                    decreases end - j,
                {
                    let idx = l[llen - 1 - j];
                    let rec = self.jobs[idx].duplicate();
                    out.push(rec);
                    proof {
                        assert(self.listing(status)[j as int] == self.jobs@[l@[llen - 1 - j] as int]);
                        assert(win.subrange(0, j - start + 1) =~= win.subrange(0, j - start).push(
                            win[j - start],
                        ));
                        assert(win[j - start] == self.listing(status)[j as int]);
                    }
                    j = j + 1;
                }
                proof {
                    assert(win.subrange(0, end - start) =~= win);
                }
            },
        }
        out
    }

    /// The first page of the worker roster, most recently seen first:
    /// at most [`WORKER_PAGE_SIZE`] entries.
    pub fn list_workers(&self) -> (r: Vec<Worker>)
        requires
            self.wf(),
        ensures
            r@.len() == if self.workers@.len() < WORKER_PAGE_SIZE {
                self.workers@.len() as int
            } else {
                WORKER_PAGE_SIZE as int
            },
            forall|i: int| 0 <= i < r@.len() ==> (#[trigger] r@[i]).worker_id@
                == self.workers@[self.workers@.len() - 1 - i].0@ && r@[i].task_kind@
                == self.namespace@ && r@[i].source@ == "memory"@ && r@[i].layers@.len() == 0,
    {
        let n = self.workers.len();
        let mut out: Vec<Worker> = Vec::new();
        let mut i: usize = 0;
        while i < n && i < WORKER_PAGE_SIZE
            invariant
                i <= n,
                n == self.workers@.len(),
                i <= WORKER_PAGE_SIZE,
                out@.len() == i,
                i < n || i == n,
                forall|x: int| 0 <= x < i ==> (#[trigger] out@[x]).worker_id@
                    == self.workers@[n - 1 - x].0@ && out@[x].task_kind@ == self.namespace@
                    && out@[x].source@ == "memory"@ && out@[x].layers@.len() == 0,
            decreases n - i,
        {
            let entry = &self.workers[n - 1 - i];
            let w = Worker::new(
                entry.0.clone(),
                self.namespace.clone(),
                String::from_str("memory"),
            );
            out.push(w);
            i = i + 1;
        }
        out
    }

    /// Register a poller on the roster, or refresh its liveness: the
    /// worker's previous entry, if any, is replaced by one stamped now.
    pub fn register_worker(&mut self, id: String)
        requires
            old(self).wf(),
            old(self).clock < u64::MAX,
        ensures
            final(self).wf(),
            final(self).jobs == old(self).jobs,
            final(self).pending == old(self).pending,
            final(self).running == old(self).running,
            final(self).success == old(self).success,
            final(self).failed == old(self).failed,
            final(self).dead == old(self).dead,
            final(self).namespace == old(self).namespace,
            final(self).clock == old(self).clock + 1,
            final(self).workers@.len() > 0,
            final(self).workers@.last().0 == id,
            final(self).workers@.last().1 == old(self).clock,
            (exists|k: int|
                0 <= k < old(self).workers@.len() && old(self).workers@[k].0@ == id@) ==> (exists|
                k: int|
                0 <= k < old(self).workers@.len() && old(self).workers@[k].0@ == id@
                    && final(self).workers@ == old(self).workers@.remove(k).push(
                    final(self).workers@.last(),
                )),
            !(exists|k: int| 0 <= k < old(self).workers@.len() && old(self).workers@[k].0@ == id@)
                ==> final(self).workers@ == old(self).workers@.push(final(self).workers@.last()),
    {
        let ghost idv = id@;
        let existing = worker_index(&self.workers, &id);
        let ghost found = existing is Some;
        let ghost k: int = if existing is Some {
            existing->0 as int
        } else {
            0
        };
        if let Some(pos) = existing {
            proof {
                old(self).workers@.remove_ensures(pos as int);
            }
            self.workers.remove(pos);
        }
        let stamp = self.clock;
        self.workers.push((id, stamp));
        self.clock = self.clock + 1;
        proof {
            let pre = *old(self);
            let s = *self;
            if found {
                pre.workers@.remove_ensures(k as int);
                assert forall|k1: int, k2: int|
                    0 <= k1 < k2 < s.workers@.len() implies (#[trigger] s.workers@[k1]).0@
                    != (#[trigger] s.workers@[k2]).0@ by {
                    if k2 < s.workers@.len() - 1 {
                        let o1 = if k1 < k as int {
                            k1
                        } else {
                            k1 + 1
                        };
                        let o2 = if k2 < k as int {
                            k2
                        } else {
                            k2 + 1
                        };
                        assert(s.workers@[k1] == pre.workers@[o1]);
                        assert(s.workers@[k2] == pre.workers@[o2]);
                    } else {
                        let o1 = if k1 < k as int {
                            k1
                        } else {
                            k1 + 1
                        };
                        assert(s.workers@[k1] == pre.workers@[o1]);
                        assert(o1 != k as int);
                        if pre.workers@[o1].0@ == idv {
                            assert(pre.workers@[o1].0@ == pre.workers@[k as int].0@);
                            assert(false);
                        }
                    }
                }
            } else {
                assert forall|k1: int, k2: int|
                    0 <= k1 < k2 < s.workers@.len() implies (#[trigger] s.workers@[k1]).0@
                    != (#[trigger] s.workers@[k2]).0@ by {
                    if k2 == s.workers@.len() - 1 {
                        assert(s.workers@[k1] == pre.workers@[k1]);
                        assert(pre.workers@[k1].0@ != idv);
                    }
                }
            }
        }
    }
}

/// Find the position of a value in a position list.
fn index_of(v: &Vec<usize>, x: usize) -> (r: Option<usize>)
    ensures
        match r {
            Some(k) => k < v@.len() && v@[k as int] == x,
            None => forall|j: int| 0 <= j < v@.len() ==> v@[j] != x,
        },
{
    let n = v.len();
    let mut k: usize = 0;
    while k < n
        invariant
            k <= n,
            n == v@.len(),
            forall|j: int| 0 <= j < k ==> v@[j] != x,
        decreases n - k,
    {
        if v[k] == x {
            return Some(k);
        }
        k = k + 1;
    }
    None
}

/// Find the position of the roster entry carrying a worker identifier.
fn worker_index(v: &Vec<(String, u64)>, x: &String) -> (r: Option<usize>)
    ensures
        match r {
            Some(k) => k < v@.len() && v@[k as int].0@ == x@,
            None => forall|j: int| 0 <= j < v@.len() ==> v@[j].0@ != x@,
        },
{
    let n = v.len();
    let mut k: usize = 0;
    while k < n
        invariant
            k <= n,
            n == v@.len(),
            forall|j: int| 0 <= j < k ==> v@[j].0@ != x@,
        decreases n - k,
    {
        if v[k].0 == *x {
            return Some(k);
        }
        k = k + 1;
    }
    None
}

/// Pagination idempotence: two listings drawn from one unchanged store,
/// same state and same page, carry the same records.
pub proof fn lemma_pagination_idempotent(a: Seq<JobRecord>, b: Seq<JobRecord>, w: Seq<JobRecord>)
    requires
        records_match(a, w),
        records_match(b, w),
    ensures
        records_match(a, b),
{
    assert forall|i: int| 0 <= i < a.len() implies record_matches(a[i], #[trigger] b[i]) by {
        assert(record_matches(a[i], w[i]));
        assert(record_matches(b[i], w[i]));
    }
}

/// An out-of-range page — page zero, a negative page, or any page past the
/// listing's last — shows the empty window, never an error.
pub proof fn lemma_page_out_of_range(s: MemoryStorage, status: JobState, page: int)
    requires
        page < 1 || (page - 1) * (JOB_PAGE_SIZE as int) >= s.listing(status).len(),
    ensures
        page_window(s.listing(status), page, JOB_PAGE_SIZE as int) == Seq::<JobRecord>::empty(),
{
}

/// The completion-time key a settled record sorts under.
pub open spec fn done_key(r: JobRecord) -> int {
    match r.done_at {
        Some(t) => t as int,
        None => -1,
    }
}

} // verus!
