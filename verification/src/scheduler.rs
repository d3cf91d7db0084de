//! Scheduler core: the single control authority over admission, matching,
//! submission outcomes, polling, cancellation and recovery.
//!
//! The scheduler is an explicitly constructed context object: in-memory queue
//! and in-flight set, the authoritative store, and the workflows. Every
//! status transition is persisted through the store. The operations here are
//! the decisions of the control loop; the surrounding application performs
//! the external calls (submit, poll, cancel against the batch manager) and
//! feeds their outcomes back in, so the loop's logic is verified while its
//! I/O stays outside.

use vstd::prelude::*;

use crate::error::SchedError;
use crate::error::SchedResult;
use crate::job::CircuitSpec;
use crate::job::Priority;
use crate::job::ResourceRequirements;
use crate::job::ScheduledJob;
use crate::job::ScheduledJobId;
use crate::job::ScheduledJobStatus;
use crate::persistence::MemStore;
use crate::persistence::StateStore;
use crate::persistence::StoredJob;
use crate::persistence::has_record;
use crate::persistence::record_index;
use crate::queue::PriorityQueue;
use crate::queue::QueueEntry;
use crate::job::FailureReason;
use crate::matcher::BackendDescriptor;
use crate::matcher::MatchResult;
use crate::matcher::ResourceMatcher;
use crate::matcher::match_upto;
use crate::matcher::spec_satisfies;
use crate::persistence::spec_bump;
use crate::queue::best_upto;
use crate::queue::pop_choice;
use crate::slurm::ExternalState;
use crate::slurm::SubmitOutcome;
use crate::workflow::Workflow;
use crate::workflow::WorkflowId;
use crate::workflow::WorkflowNode;

verus! {

/// What the scheduler decided after one external submission attempt.
#[derive(Clone, Copy, Debug, PartialEq, Eq, Structural)]
pub enum SubmitDisposition {
    /// The job advanced to `Submitted` and joined the in-flight set.
    Submitted,
    /// Transient failure within the retry budget: the job stays `Queued` and
    /// its entry went back to the queue under its original admission key.
    Requeued,
    /// The attempt exhausted the retry budget: the job ended `Failed` with
    /// the exhaustion recorded as the reason.
    FailedExhausted,
}

/// Configuration of the scheduler's policies.
#[derive(Clone, Copy, Debug, PartialEq, Eq, Structural)]
pub struct SchedulerConfig {
    /// Maximum number of failed submission attempts per job; reaching it
    /// marks the job failed with the exhaustion recorded as the reason.
    pub max_retries: u64,
    /// Whether a failed job marks its workflow failed (the default).
    pub propagate_failures: bool,
}

impl SchedulerConfig {
    /// The default policy: three attempts, failures propagate.
    pub fn standard() -> (c: SchedulerConfig)
        ensures
            c.max_retries == 3,
            c.propagate_failures,
    {
        SchedulerConfig { max_retries: 3, propagate_failures: true }
    }
}

/// What the scheduler decided after one poll of the external system.
#[derive(Clone, Copy, Debug, PartialEq, Eq, Structural)]
pub enum PollDisposition {
    /// No change: the external answer was transient, unrecognized, or
    /// reported a state already recorded.
    NoChange,
    /// The job is executing externally.
    Running,
    /// The job completed; its result handle was recorded.
    Completed,
    /// The job failed externally.
    Failed,
    /// The job was cancelled externally.
    Cancelled,
}

/// What the scheduler decided on a cancellation request.
#[derive(Clone, Copy, Debug, PartialEq, Eq, Structural)]
pub enum CancelDisposition {
    /// The job was already terminal; nothing changed, the request succeeded.
    AlreadyTerminal,
    /// The job was not yet external: it was cancelled locally at once.
    CancelledLocally,
    /// The job is external: the caller should best-effort inform the batch
    /// manager under this handle, then report `Cancelled` through
    /// [`Scheduler::on_poll`] (at the latest when a bounded wait expires);
    /// the external system is informed, never authoritative.
    CancelRequested(u64),
}

/// The position of an id in a sequence of ids.
pub open spec fn spec_position(s: Seq<ScheduledJobId>, id: ScheduledJobId) -> int {
    choose|j: int| 0 <= j < s.len() && s[j] == id
}

/// The position of a job's entry in a sequence of queue entries.
pub open spec fn spec_entry_position(s: Seq<QueueEntry>, id: ScheduledJobId) -> int {
    choose|j: int| 0 <= j < s.len() && #[trigger] s[j].job_id == id
}

/// The queue entry under which a stored job stands in the queue.
pub open spec fn spec_entry_of(job: ScheduledJob) -> QueueEntry {
    QueueEntry { job_id: job.id, priority: job.priority, admitted_at: job.admitted_at->0 }
}

/// The queue entries of the `Queued` records among the first `n`, in record
/// order: what recovery rebuilds the queue from.
pub open spec fn queued_entries(s: Seq<StoredJob>, n: int) -> Seq<QueueEntry>
    recommends
        n <= s.len(),
    decreases n,
{
    if n <= 0 {
        Seq::empty()
    } else if s[n - 1].job.status == ScheduledJobStatus::Queued {
        queued_entries(s, n - 1).push(spec_entry_of(s[n - 1].job))
    } else {
        queued_entries(s, n - 1)
    }
}

/// The ids of the `Submitted` or `Running` records among the first `n`, in
/// record order: what recovery rebuilds the in-flight set from.
pub open spec fn inflight_ids(s: Seq<StoredJob>, n: int) -> Seq<ScheduledJobId>
    recommends
        n <= s.len(),
    decreases n,
{
    if n <= 0 {
        Seq::empty()
    } else if s[n - 1].job.status == ScheduledJobStatus::Submitted
        || s[n - 1].job.status == ScheduledJobStatus::Running {
        inflight_ids(s, n - 1).push(s[n - 1].job.id)
    } else {
        inflight_ids(s, n - 1)
    }
}

/// Each rebuilt queue entry is the entry of exactly one `Queued` record, the
/// entry of every `Queued` record is present, and no id repeats.
pub proof fn lemma_queued_entries_props(s: Seq<StoredJob>, n: int)
    requires
        crate::persistence::unique_ids(s),
        0 <= n <= s.len(),
    ensures
        forall|j: int| 0 <= j < queued_entries(s, n).len() ==> exists|i: int|
            0 <= i < n && #[trigger] queued_entries(s, n)[j] == spec_entry_of(s[i].job)
            && s[i].job.status == ScheduledJobStatus::Queued,
        forall|i: int| 0 <= i < n && #[trigger] s[i].job.status == ScheduledJobStatus::Queued
            ==> queued_entries(s, n).contains(spec_entry_of(s[i].job)),
        forall|j1: int, j2: int|
            0 <= j1 < queued_entries(s, n).len() && 0 <= j2 < queued_entries(s, n).len()
            && j1 != j2 ==> #[trigger] queued_entries(s, n)[j1].job_id
                != #[trigger] queued_entries(s, n)[j2].job_id,
    decreases n,
{
    if n > 0 {
        lemma_queued_entries_props(s, n - 1);
        let prev = queued_entries(s, n - 1);
        let cur = queued_entries(s, n);
        assert forall|j: int| 0 <= j < cur.len() implies exists|i: int|
            0 <= i < n && #[trigger] cur[j] == spec_entry_of(s[i].job)
            && s[i].job.status == ScheduledJobStatus::Queued by {
            if j < prev.len() {
                assert(cur[j] == prev[j]);
                let i = choose|i: int|
                    0 <= i < n - 1 && #[trigger] prev[j] == spec_entry_of(s[i].job)
                    && s[i].job.status == ScheduledJobStatus::Queued;
                assert(cur[j] == spec_entry_of(s[i].job)
                    && s[i].job.status == ScheduledJobStatus::Queued);
            } else {
                assert(cur[j] == spec_entry_of(s[n - 1].job)
                    && s[n - 1].job.status == ScheduledJobStatus::Queued);
            }
        }
        assert forall|i: int|
            0 <= i < n && #[trigger] s[i].job.status == ScheduledJobStatus::Queued
            implies cur.contains(spec_entry_of(s[i].job)) by {
            if i < n - 1 {
                assert(prev.contains(spec_entry_of(s[i].job)));
                let j = choose|j: int| 0 <= j < prev.len() && prev[j] == spec_entry_of(s[i].job);
                assert(cur[j] == spec_entry_of(s[i].job));
            } else {
                assert(cur[cur.len() - 1] == spec_entry_of(s[i].job));
            }
        }
        assert forall|j1: int, j2: int|
            0 <= j1 < cur.len() && 0 <= j2 < cur.len() && j1 != j2
            implies #[trigger] cur[j1].job_id != #[trigger] cur[j2].job_id by {
            let i1 = choose|i: int|
                0 <= i < n && #[trigger] cur[j1] == spec_entry_of(s[i].job)
                && s[i].job.status == ScheduledJobStatus::Queued;
            let i2 = choose|i: int|
                0 <= i < n && #[trigger] cur[j2] == spec_entry_of(s[i].job)
                && s[i].job.status == ScheduledJobStatus::Queued;
            if i1 == i2 {
                if s[i1].job.status == ScheduledJobStatus::Queued {
                    if j1 < prev.len() && j2 < prev.len() {
                        assert(prev[j1].job_id != prev[j2].job_id);
                    }
                }
            }
        }
    }
}

/// Whether the record at `i` is in flight: submitted or running.
pub open spec fn spec_inflight_at(s: Seq<StoredJob>, i: int) -> bool {
    s[i].job.status == ScheduledJobStatus::Submitted
        || s[i].job.status == ScheduledJobStatus::Running
}

/// Each rebuilt in-flight id names the unique `Submitted` or `Running`
/// record carrying it, every such record's id is present, and no id repeats.
pub proof fn lemma_inflight_ids_props(s: Seq<StoredJob>, n: int)
    requires
        crate::persistence::unique_ids(s),
        0 <= n <= s.len(),
    ensures
        forall|j: int| 0 <= j < inflight_ids(s, n).len() ==> {
            let id = #[trigger] inflight_ids(s, n)[j];
            &&& has_record(s, id)
            &&& 0 <= record_index(s, id) < n
            &&& spec_inflight_at(s, record_index(s, id))
            &&& s[record_index(s, id)].job.id == id
        },
        forall|i: int| 0 <= i < n && #[trigger] spec_inflight_at(s, i)
            ==> inflight_ids(s, n).contains(s[i].job.id),
        forall|j1: int, j2: int|
            0 <= j1 < inflight_ids(s, n).len() && 0 <= j2 < inflight_ids(s, n).len() && j1 != j2
            ==> #[trigger] inflight_ids(s, n)[j1] != #[trigger] inflight_ids(s, n)[j2],
    decreases n,
{
    if n > 0 {
        lemma_inflight_ids_props(s, n - 1);
        let prev = inflight_ids(s, n - 1);
        let cur = inflight_ids(s, n);
        assert forall|j: int| 0 <= j < cur.len() implies {
            let id = #[trigger] cur[j];
            &&& has_record(s, id)
            &&& 0 <= record_index(s, id) < n
            &&& spec_inflight_at(s, record_index(s, id))
            &&& s[record_index(s, id)].job.id == id
        } by {
            if j < prev.len() {
                assert(cur[j] == prev[j]);
            } else {
                let id = s[n - 1].job.id;
                assert(cur[j] == id);
                assert(has_record(s, id));
                crate::persistence::lemma_record_index(s, id);
                assert(record_index(s, id) == n - 1);
            }
        }
        assert forall|i: int| 0 <= i < n && #[trigger] spec_inflight_at(s, i)
            implies cur.contains(s[i].job.id) by {
            if i < n - 1 {
                assert(prev.contains(s[i].job.id));
                let j = choose|j: int| 0 <= j < prev.len() && prev[j] == s[i].job.id;
                assert(cur[j] == s[i].job.id);
            } else {
                assert(cur[cur.len() - 1] == s[i].job.id);
            }
        }
        assert forall|j1: int, j2: int|
            0 <= j1 < cur.len() && 0 <= j2 < cur.len() && j1 != j2
            implies #[trigger] cur[j1] != #[trigger] cur[j2] by {
            if j1 < prev.len() && j2 < prev.len() {
                assert(prev[j1] != prev[j2]);
            } else if j1 < prev.len() {
                if cur[j1] == cur[j2] {
                    crate::persistence::lemma_record_index(s, cur[j2]);
                    assert(record_index(s, prev[j1]) < n - 1);
                    assert(record_index(s, cur[j2]) == n - 1);
                }
            } else if j2 < prev.len() {
                if cur[j1] == cur[j2] {
                    crate::persistence::lemma_record_index(s, cur[j1]);
                    assert(record_index(s, prev[j2]) < n - 1);
                    assert(record_index(s, cur[j1]) == n - 1);
                }
            }
        }
    }
}

/// Law: recovery is exact. The state rebuilt from a store holds an entry or
/// an in-flight id for a job exactly when the store holds an active record
/// for it — a `Queued` record yields exactly one queue entry under its
/// persisted key, a `Submitted` or `Running` record exactly one in-flight
/// id, and nothing else appears: no job is lost or duplicated.
pub proof fn lemma_recovery_exact(s: Seq<StoredJob>, id: ScheduledJobId)
    requires
        crate::persistence::unique_ids(s),
    ensures
        (exists|j: int| 0 <= j < queued_entries(s, s.len() as int).len()
            && (#[trigger] queued_entries(s, s.len() as int)[j]).job_id == id) <==> (has_record(
            s,
            id,
        ) && s[record_index(s, id)].job.status == ScheduledJobStatus::Queued),
        inflight_ids(s, s.len() as int).contains(id) <==> (has_record(s, id) && (s[record_index(
            s,
            id,
        )].job.status == ScheduledJobStatus::Submitted || s[record_index(
            s,
            id,
        )].job.status == ScheduledJobStatus::Running)),
{
    let n = s.len() as int;
    lemma_queued_entries_props(s, n);
    lemma_inflight_ids_props(s, n);
    if exists|j: int| 0 <= j < queued_entries(s, n).len()
        && (#[trigger] queued_entries(s, n)[j]).job_id == id {
        let j = choose|j: int| 0 <= j < queued_entries(s, n).len()
            && (#[trigger] queued_entries(s, n)[j]).job_id == id;
        let i = choose|i: int|
            0 <= i < n && #[trigger] queued_entries(s, n)[j] == spec_entry_of(s[i].job)
            && s[i].job.status == ScheduledJobStatus::Queued;
        assert(s[i].job.id == id);
        crate::persistence::lemma_record_index(s, id);
    }
    if has_record(s, id) && s[record_index(s, id)].job.status == ScheduledJobStatus::Queued {
        crate::persistence::lemma_record_index(s, id);
        let i = record_index(s, id);
        assert(queued_entries(s, n).contains(spec_entry_of(s[i].job)));
        let j = choose|j: int| 0 <= j < queued_entries(s, n).len()
            && queued_entries(s, n)[j] == spec_entry_of(s[i].job);
        assert(queued_entries(s, n)[j].job_id == id);
    }
    if inflight_ids(s, n).contains(id) {
        let j = choose|j: int| 0 <= j < inflight_ids(s, n).len() && inflight_ids(s, n)[j] == id;
        assert(inflight_ids(s, n)[j] == id);
    }
    if has_record(s, id) && (s[record_index(s, id)].job.status == ScheduledJobStatus::Submitted
        || s[record_index(s, id)].job.status == ScheduledJobStatus::Running) {
        crate::persistence::lemma_record_index(s, id);
        let i = record_index(s, id);
        assert(spec_inflight_at(s, i));
        assert(inflight_ids(s, n).contains(s[i].job.id));
    }
}

/// The scheduler's in-memory state: built from the store at startup, driven
/// by the control loop, never shared implicitly.
#[derive(Debug)]
pub struct Scheduler {
    /// Policies.
    pub config: SchedulerConfig,
    /// Authoritative persisted records.
    pub store: MemStore,
    /// Entries of jobs admitted and awaiting matching.
    pub queue: PriorityQueue,
    /// Ids of jobs submitted to the external system and not yet terminal.
    pub in_flight: Vec<ScheduledJobId>,
    /// Workflows admitted to this scheduler.
    pub workflows: Vec<Workflow>,
    /// Next fresh job id.
    pub next_job_id: u64,
    /// Next fresh workflow id.
    pub next_workflow_id: u64,
}

impl Scheduler {
    /// Well-formedness tying the pieces together: the store's records are
    /// unique, well-formed jobs with ids below the id counter; every queue
    /// entry names a distinct stored job that is `Queued` under the entry's
    /// key; every in-flight id names a distinct stored job that is
    /// `Submitted` or `Running`; the workflows are well-formed with unique
    /// ids below the workflow counter.
    pub open spec fn wf(self) -> bool {
        let recs = self.store.spec_records();
        &&& self.store.inv()
        &&& (forall|i: int| 0 <= i < recs.len() ==> (#[trigger] recs[i].job).wf())
        &&& (forall|i: int| 0 <= i < recs.len() ==> (#[trigger] recs[i].job).id < self.next_job_id)
        &&& (forall|j: int| 0 <= j < self.queue@.len() ==> {
            let e = #[trigger] self.queue@[j];
            &&& has_record(recs, e.job_id)
            &&& recs[record_index(recs, e.job_id)].job.status == ScheduledJobStatus::Queued
            &&& recs[record_index(recs, e.job_id)].job.priority == e.priority
            &&& recs[record_index(recs, e.job_id)].job.admitted_at == Some(e.admitted_at)
        })
        &&& (forall|j1: int, j2: int|
            0 <= j1 < self.queue@.len() && 0 <= j2 < self.queue@.len() && j1 != j2
            ==> #[trigger] self.queue@[j1].job_id != #[trigger] self.queue@[j2].job_id)
        &&& (forall|j: int| 0 <= j < self.in_flight@.len() ==> {
            let id = #[trigger] self.in_flight@[j];
            &&& has_record(recs, id)
            &&& (recs[record_index(recs, id)].job.status == ScheduledJobStatus::Submitted
                || recs[record_index(recs, id)].job.status == ScheduledJobStatus::Running)
        })
        &&& (forall|j1: int, j2: int|
            0 <= j1 < self.in_flight@.len() && 0 <= j2 < self.in_flight@.len() && j1 != j2
            ==> #[trigger] self.in_flight@[j1] != #[trigger] self.in_flight@[j2])
        &&& (forall|w: int| 0 <= w < self.workflows@.len() ==> (#[trigger] self.workflows@[w]).wf())
        &&& (forall|w: int| 0 <= w < self.workflows@.len()
            ==> (#[trigger] self.workflows@[w]).id < self.next_workflow_id)
        &&& (forall|w1: int, w2: int|
            0 <= w1 < self.workflows@.len() && 0 <= w2 < self.workflows@.len() && w1 != w2
            ==> #[trigger] self.workflows@[w1].id != #[trigger] self.workflows@[w2].id)
    }

    /// Create an empty scheduler.
    pub fn new(config: SchedulerConfig) -> (s: Scheduler)
        ensures
            s.wf(),
            s.config == config,
            s.store.spec_records().len() == 0,
            s.queue@.len() == 0,
            s.in_flight@.len() == 0,
            s.workflows@.len() == 0,
    {
        Scheduler {
            config,
            store: MemStore::new(),
            queue: PriorityQueue::new(),
            in_flight: Vec::new(),
            workflows: Vec::new(),
            next_job_id: 0,
            next_workflow_id: 0,
        }
    }

    /// Admit a single, dependency-free job: validate it, persist it as
    /// `Queued`, and enqueue it. Returns the generated id at once; actual
    /// scheduling is asynchronous relative to this call.
    pub fn admit_job(
        &mut self,
        name: String,
        priority: Priority,
        requirements: ResourceRequirements,
        circuit: CircuitSpec,
        now: u64,
    ) -> (r: SchedResult<ScheduledJobId>)
        requires
            old(self).wf(),
            old(self).next_job_id < u64::MAX,
        ensures
            final(self).wf(),
            r is Ok <==> requirements.spec_valid(),
            r is Err ==> *final(self) == *old(self) && r == Err::<ScheduledJobId, SchedError>(
                SchedError::InvalidJobSpec,
            ),
            r matches Ok(id) ==> {
                let job = ScheduledJob {
                    id,
                    name,
                    priority,
                    requirements,
                    circuit,
                    status: ScheduledJobStatus::Queued,
                    backend: None,
                    external_handle: None,
                    retries: 0,
                    admitted_at: Some(now),
                    created_at: now,
                    updated_at: now,
                    result: None,
                    failure: None,
                };
                &&& id == old(self).next_job_id
                &&& final(self).next_job_id == old(self).next_job_id + 1
                &&& final(self).store.spec_records() =~= old(self).store.spec_records().push(
                    StoredJob { job, version: 1 },
                )
                &&& final(self).queue@ =~= old(self).queue@.push(QueueEntry {
                    job_id: id,
                    priority,
                    admitted_at: now,
                })
                &&& final(self).in_flight@ =~= old(self).in_flight@
                &&& final(self).workflows@ =~= old(self).workflows@
                &&& final(self).config == old(self).config
            },
    {
        let id = self.next_job_id;
        let mut job = match ScheduledJob::new(id, name, priority, requirements, circuit, now) {
            Ok(job) => job,
            Err(e) => {
                return Err(e);
            },
        };
        let queued = job.mark_queued(now);
        proof {
            assert(queued is Ok);
        }
        proof {
            if has_record(self.store.spec_records(), id) {
                let i = record_index(self.store.spec_records(), id);
                assert(self.store.spec_records()[i].job.id < self.next_job_id);
                assert(false);
            }
        }
        self.store.put(job);
        self.queue.push(QueueEntry { job_id: id, priority, admitted_at: now });
        self.next_job_id = id + 1;
        proof {
            let recs0 = old(self).store.spec_records();
            let recs1 = self.store.spec_records();
            let rec = recs1.last();
            assert(recs1 =~= recs0.push(rec));
            crate::persistence::lemma_push_fresh(recs0, rec);
            assert forall|j: int| 0 <= j < self.queue@.len() implies {
                let e = #[trigger] self.queue@[j];
                &&& has_record(recs1, e.job_id)
                &&& recs1[record_index(recs1, e.job_id)].job.status == ScheduledJobStatus::Queued
                &&& recs1[record_index(recs1, e.job_id)].job.priority == e.priority
                &&& recs1[record_index(recs1, e.job_id)].job.admitted_at == Some(e.admitted_at)
            } by {
                let e = self.queue@[j];
                if j < old(self).queue@.len() {
                    assert(recs0[record_index(recs0, e.job_id)].job.id == e.job_id);
                    assert(e.job_id != id);
                    assert(recs1[record_index(recs1, e.job_id)] == recs0[record_index(recs0, e.job_id)]);
                }
            }
            assert forall|j: int| 0 <= j < self.in_flight@.len() implies {
                let fid = #[trigger] self.in_flight@[j];
                &&& has_record(recs1, fid)
                &&& (recs1[record_index(recs1, fid)].job.status == ScheduledJobStatus::Submitted
                    || recs1[record_index(recs1, fid)].job.status == ScheduledJobStatus::Running)
            } by {
                let fid = self.in_flight@[j];
                assert(recs0[record_index(recs0, fid)].job.id == fid);
                assert(fid != id);
                assert(recs1[record_index(recs1, fid)] == recs0[record_index(recs0, fid)]);
            }
            assert forall|j1: int, j2: int|
                0 <= j1 < self.queue@.len() && 0 <= j2 < self.queue@.len() && j1 != j2
                implies #[trigger] self.queue@[j1].job_id != #[trigger] self.queue@[j2].job_id by {
                if j1 == old(self).queue@.len() as int {
                    assert(recs0[record_index(recs0, self.queue@[j2].job_id)].job.id
                        == self.queue@[j2].job_id);
                } else if j2 == old(self).queue@.len() as int {
                    assert(recs0[record_index(recs0, self.queue@[j1].job_id)].job.id
                        == self.queue@[j1].job_id);
                }
            }
        }
        Ok(id)
    }

    /// One matching step of a scheduling tick: pop the entry first in
    /// dequeue order and match its job's requirements against the current
    /// backend snapshot. On a match the entry leaves the queue and is handed
    /// to the caller for external submission; with no satisfying backend the
    /// entry goes straight back (a normal backpressure state, not an error).
    pub fn pick_next(&mut self, descriptors: &Vec<BackendDescriptor>) -> (r: Option<
        (QueueEntry, MatchResult),
    >)
        requires
            old(self).wf(),
        ensures
            final(self).wf(),
            final(self).store == old(self).store,
            final(self).in_flight == old(self).in_flight,
            final(self).workflows == old(self).workflows,
            final(self).config == old(self).config,
            final(self).next_job_id == old(self).next_job_id,
            final(self).next_workflow_id == old(self).next_workflow_id,
            old(self).queue@.len() == 0 ==> r is None && final(self).queue@ =~= old(self).queue@,
            old(self).queue@.len() > 0 ==> {
                let e = pop_choice(old(self).queue@);
                let rest = old(self).queue@.remove(
                    best_upto(old(self).queue@, old(self).queue@.len() as int),
                );
                let recs = old(self).store.spec_records();
                let req = recs[record_index(recs, e.job_id)].job.requirements;
                &&& (r is Some <==> exists|j: int|
                    0 <= j < descriptors@.len() && spec_satisfies(req, #[trigger] descriptors@[j]))
                &&& (r matches Some(pair) ==> {
                    let b = match_upto(req, descriptors@, descriptors@.len() as int);
                    &&& pair.0 == e
                    &&& 0 <= b < descriptors@.len()
                    &&& spec_satisfies(req, descriptors@[b])
                    &&& pair.1.backend_id == descriptors@[b].id
                    &&& final(self).queue@ =~= rest
                    &&& (forall|j: int| 0 <= j < final(self).queue@.len()
                        ==> #[trigger] final(self).queue@[j].job_id != e.job_id)
                })
                &&& (r is None ==> final(self).queue@ =~= rest.push(e))
            },
    {
        let eo = self.queue.pop();
        let e = match eo {
            Some(e) => e,
            None => {
                return None;
            },
        };
        proof {
            let olds = old(self).queue@;
            let b = best_upto(olds, olds.len() as int);
            crate::queue::lemma_best_upto(olds, olds.len() as int);
            assert(e == olds[b]);
            assert forall|j: int| 0 <= j < self.queue@.len()
                implies #[trigger] self.queue@[j].job_id != e.job_id by {
                if j < b {
                    assert(self.queue@[j] == olds[j]);
                } else {
                    assert(self.queue@[j] == olds[j + 1]);
                }
            }
            assert forall|j1: int, j2: int|
                0 <= j1 < self.queue@.len() && 0 <= j2 < self.queue@.len() && j1 != j2
                implies #[trigger] self.queue@[j1].job_id != #[trigger] self.queue@[j2].job_id by {
                let m1: int = if j1 < b { j1 } else { j1 + 1 };
                let m2: int = if j2 < b { j2 } else { j2 + 1 };
                assert(self.queue@[j1] == olds[m1]);
                assert(self.queue@[j2] == olds[m2]);
            }
        }
        let jobo = self.store.get(e.job_id);
        let job = match jobo {
            Some(job) => job,
            None => {
                proof {
                    assert(false);
                }
                return None;
            },
        };
        match ResourceMatcher::match_job(&job.requirements, descriptors) {
            Some(m) => Some((e, m)),
            None => {
                self.queue.push(e);
                None
            },
        }
    }

    /// Apply the outcome of one external submission attempt for a job whose
    /// entry was just popped by [`Scheduler::pick_next`].
    ///
    /// Acceptance advances the job to `Submitted` (handle and backend
    /// recorded) and adds it to the in-flight set. A transient rejection
    /// within the retry budget increments the retry counter and re-queues
    /// the entry under its original admission key; one that exhausts the
    /// budget marks the job `Failed` with the exhaustion as the recorded
    /// reason, not the last transient error. Every change is persisted.
    pub fn on_submit_outcome(
        &mut self,
        entry: QueueEntry,
        backend: u64,
        outcome: SubmitOutcome,
        now: u64,
    ) -> (r: SubmitDisposition)
        requires
            old(self).wf(),
            has_record(old(self).store.spec_records(), entry.job_id),
            old(self).store.spec_records()[record_index(
                old(self).store.spec_records(),
                entry.job_id,
            )].job.status == ScheduledJobStatus::Queued,
            old(self).store.spec_records()[record_index(
                old(self).store.spec_records(),
                entry.job_id,
            )].job.priority == entry.priority,
            old(self).store.spec_records()[record_index(
                old(self).store.spec_records(),
                entry.job_id,
            )].job.admitted_at == Some(entry.admitted_at),
            forall|j: int| 0 <= j < old(self).queue@.len()
                ==> #[trigger] old(self).queue@[j].job_id != entry.job_id,
        ensures
            final(self).wf(),
            final(self).workflows == old(self).workflows,
            final(self).config == old(self).config,
            final(self).next_job_id == old(self).next_job_id,
            final(self).next_workflow_id == old(self).next_workflow_id,
            ({
                let recs = old(self).store.spec_records();
                let i = record_index(recs, entry.job_id);
                let job0 = recs[i].job;
                &&& (outcome matches SubmitOutcome::Accepted(handle) ==> {
                    &&& r == SubmitDisposition::Submitted
                    &&& final(self).store.spec_records() =~= recs.update(i, StoredJob {
                        job: ScheduledJob {
                            status: ScheduledJobStatus::Submitted,
                            backend: Some(backend),
                            external_handle: Some(handle),
                            updated_at: now,
                            ..job0
                        },
                        version: spec_bump(recs[i].version),
                    })
                    &&& final(self).in_flight@ =~= old(self).in_flight@.push(entry.job_id)
                    &&& final(self).queue@ =~= old(self).queue@
                })
                &&& (outcome is Rejected && spec_bump(job0.retries) < old(self).config.max_retries
                    ==> {
                    &&& r == SubmitDisposition::Requeued
                    &&& final(self).store.spec_records() =~= recs.update(i, StoredJob {
                        job: ScheduledJob {
                            retries: spec_bump(job0.retries),
                            updated_at: now,
                            ..job0
                        },
                        version: spec_bump(recs[i].version),
                    })
                    &&& final(self).in_flight@ =~= old(self).in_flight@
                    &&& final(self).queue@ =~= old(self).queue@.push(entry)
                })
                &&& (outcome is Rejected && spec_bump(job0.retries) >= old(self).config.max_retries
                    ==> {
                    &&& r == SubmitDisposition::FailedExhausted
                    &&& final(self).store.spec_records() =~= recs.update(i, StoredJob {
                        job: ScheduledJob {
                            status: ScheduledJobStatus::Failed,
                            retries: spec_bump(job0.retries),
                            failure: Some(FailureReason::RetriesExhausted),
                            updated_at: now,
                            ..job0
                        },
                        version: spec_bump(recs[i].version),
                    })
                    &&& final(self).in_flight@ =~= old(self).in_flight@
                    &&& final(self).queue@ =~= old(self).queue@
                })
            }),
    {
        let ghost recs0 = self.store.spec_records();
        let ghost i = record_index(recs0, entry.job_id);
        let mut job = match self.store.get(entry.job_id) {
            Some(job) => job,
            None => {
                proof {
                    assert(false);
                }
                return SubmitDisposition::FailedExhausted;
            },
        };
        let disposition;
        match outcome {
            SubmitOutcome::Accepted(handle) => {
                let marked = job.mark_submitted(backend, handle, now);
                proof {
                    assert(marked is Ok);
                }
                self.store.put(job);
                self.in_flight.push(entry.job_id);
                disposition = SubmitDisposition::Submitted;
            },
            SubmitOutcome::Rejected => {
                let bumped = if job.retries == u64::MAX {
                    job.retries
                } else {
                    job.retries + 1
                };
                job.retries = bumped;
                if bumped < self.config.max_retries {
                    job.updated_at = now;
                    self.store.put(job);
                    self.queue.push(entry);
                    disposition = SubmitDisposition::Requeued;
                } else {
                    let marked = job.mark_failed(FailureReason::RetriesExhausted, now);
                    proof {
                        assert(marked is Ok);
                    }
                    self.store.put(job);
                    disposition = SubmitDisposition::FailedExhausted;
                }
            },
        }
        proof {
            let recs1 = self.store.spec_records();
            crate::persistence::lemma_record_index(recs0, entry.job_id);
            crate::persistence::lemma_update_same_id(recs0, i, recs1[i]);
            assert(recs1 =~= recs0.update(i, recs1[i]));
            assert forall|j: int| 0 <= j < self.queue@.len() implies {
                let e = #[trigger] self.queue@[j];
                &&& has_record(recs1, e.job_id)
                &&& recs1[record_index(recs1, e.job_id)].job.status == ScheduledJobStatus::Queued
                &&& recs1[record_index(recs1, e.job_id)].job.priority == e.priority
                &&& recs1[record_index(recs1, e.job_id)].job.admitted_at == Some(e.admitted_at)
            } by {
                let e = self.queue@[j];
                if j < old(self).queue@.len() {
                    assert(e == old(self).queue@[j]);
                    assert(e.job_id != entry.job_id);
                    assert(record_index(recs1, e.job_id) == record_index(recs0, e.job_id));
                    assert(record_index(recs0, e.job_id) != i);
                } else {
                    assert(e == entry);
                    assert(record_index(recs1, e.job_id) == i);
                }
            }
            assert forall|j: int| 0 <= j < self.in_flight@.len() implies {
                let fid = #[trigger] self.in_flight@[j];
                &&& has_record(recs1, fid)
                &&& (recs1[record_index(recs1, fid)].job.status == ScheduledJobStatus::Submitted
                    || recs1[record_index(recs1, fid)].job.status == ScheduledJobStatus::Running)
            } by {
                let fid = self.in_flight@[j];
                if j < old(self).in_flight@.len() {
                    assert(fid == old(self).in_flight@[j]);
                    if fid == entry.job_id {
                        assert(recs0[record_index(recs0, fid)].job.status
                            == ScheduledJobStatus::Queued);
                        assert(false);
                    }
                    assert(record_index(recs1, fid) == record_index(recs0, fid));
                    assert(record_index(recs0, fid) != i);
                } else {
                    assert(fid == entry.job_id);
                    assert(record_index(recs1, fid) == i);
                }
            }
            assert forall|j1: int, j2: int|
                0 <= j1 < self.in_flight@.len() && 0 <= j2 < self.in_flight@.len() && j1 != j2
                implies #[trigger] self.in_flight@[j1] != #[trigger] self.in_flight@[j2] by {
                if j1 == old(self).in_flight@.len() as int {
                    assert(recs0[record_index(recs0, self.in_flight@[j2])].job.status
                        != ScheduledJobStatus::Queued);
                } else if j2 == old(self).in_flight@.len() as int {
                    assert(recs0[record_index(recs0, self.in_flight@[j1])].job.status
                        != ScheduledJobStatus::Queued);
                }
            }
        }
        disposition
    }

    /// Apply what a poll of the external system reported for an in-flight
    /// job, persisting any transition. A transient or unrecognized answer
    /// changes nothing and is polled again later, never treated as failure.
    /// A terminal answer records the result, reason, or cancellation and
    /// retires the job from the in-flight set.
    pub fn on_poll(&mut self, job_id: ScheduledJobId, observed: ExternalState, now: u64) -> (r:
        PollDisposition)
        requires
            old(self).wf(),
            has_record(old(self).store.spec_records(), job_id),
            old(self).store.spec_records()[record_index(
                old(self).store.spec_records(),
                job_id,
            )].job.status == ScheduledJobStatus::Submitted
                || old(self).store.spec_records()[record_index(
                old(self).store.spec_records(),
                job_id,
            )].job.status == ScheduledJobStatus::Running,
        ensures
            final(self).wf(),
            final(self).workflows == old(self).workflows,
            final(self).config == old(self).config,
            final(self).queue == old(self).queue,
            final(self).next_job_id == old(self).next_job_id,
            final(self).next_workflow_id == old(self).next_workflow_id,
            (observed is Submitted || observed is Unknown) ==> (*final(self) == *old(self)
                && r == PollDisposition::NoChange),
            ({
                let recs = old(self).store.spec_records();
                let i = record_index(recs, job_id);
                let job0 = recs[i].job;
                let infl = old(self).in_flight@;
                let removed: Seq<ScheduledJobId> = if infl.contains(job_id) {
                    infl.remove(spec_position(infl, job_id))
                } else {
                    infl
                };
                &&& (observed is Running ==> {
                    &&& r == PollDisposition::Running
                    &&& final(self).in_flight@ =~= infl
                    &&& (job0.status == ScheduledJobStatus::Submitted ==> final(self).store.spec_records() =~= recs.update(i, StoredJob {
                        job: ScheduledJob {
                            status: ScheduledJobStatus::Running,
                            updated_at: now,
                            ..job0
                        },
                        version: spec_bump(recs[i].version),
                    }))
                    &&& (job0.status == ScheduledJobStatus::Running ==> final(self).store == old(self).store)
                })
                &&& (observed matches ExternalState::Completed(res) ==> {
                    &&& r == PollDisposition::Completed
                    &&& final(self).in_flight@ =~= removed
                    &&& final(self).store.spec_records() =~= recs.update(i, StoredJob {
                        job: ScheduledJob {
                            status: ScheduledJobStatus::Completed,
                            result: Some(res),
                            updated_at: now,
                            ..job0
                        },
                        version: spec_bump(recs[i].version),
                    })
                })
                &&& (observed is Failed ==> {
                    &&& r == PollDisposition::Failed
                    &&& final(self).in_flight@ =~= removed
                    &&& final(self).store.spec_records() =~= recs.update(i, StoredJob {
                        job: ScheduledJob {
                            status: ScheduledJobStatus::Failed,
                            failure: Some(FailureReason::ExternalFailure),
                            updated_at: now,
                            ..job0
                        },
                        version: spec_bump(recs[i].version),
                    })
                })
                &&& (observed is Cancelled ==> {
                    &&& r == PollDisposition::Cancelled
                    &&& final(self).in_flight@ =~= removed
                    &&& final(self).store.spec_records() =~= recs.update(i, StoredJob {
                        job: ScheduledJob {
                            status: ScheduledJobStatus::Cancelled,
                            updated_at: now,
                            ..job0
                        },
                        version: spec_bump(recs[i].version),
                    })
                })
            }),
    {
        let ghost recs0 = self.store.spec_records();
        let ghost i = record_index(recs0, job_id);
        match observed {
            ExternalState::Submitted | ExternalState::Unknown => {
                return PollDisposition::NoChange;
            },
            _ => {},
        }
        let mut job = match self.store.get(job_id) {
            Some(job) => job,
            None => {
                proof {
                    assert(false);
                }
                return PollDisposition::NoChange;
            },
        };
        let disposition;
        match observed {
            ExternalState::Running => {
                if matches!(job.status, ScheduledJobStatus::Submitted) {
                    let marked = job.mark_running(now);
                    proof {
                        assert(marked is Ok);
                    }
                    self.store.put(job);
                }
                disposition = PollDisposition::Running;
            },
            ExternalState::Completed(res) => {
                let marked = job.mark_completed(res, now);
                proof {
                    assert(marked is Ok);
                }
                self.store.put(job);
                self.remove_in_flight(job_id);
                disposition = PollDisposition::Completed;
            },
            ExternalState::Failed => {
                let marked = job.mark_failed(FailureReason::ExternalFailure, now);
                proof {
                    assert(marked is Ok);
                }
                self.store.put(job);
                self.remove_in_flight(job_id);
                disposition = PollDisposition::Failed;
            },
            ExternalState::Cancelled => {
                let marked = job.mark_cancelled(now);
                proof {
                    assert(marked is Ok);
                }
                self.store.put(job);
                self.remove_in_flight(job_id);
                disposition = PollDisposition::Cancelled;
            },
            ExternalState::Submitted | ExternalState::Unknown => {
                proof {
                    assert(false);
                }
                disposition = PollDisposition::NoChange;
            },
        }
        proof {
            let recs1 = self.store.spec_records();
            crate::persistence::lemma_record_index(recs0, job_id);
            crate::persistence::lemma_update_same_id(recs0, i, recs1[i]);
            assert(recs1 =~= recs0.update(i, recs1[i]));
            assert forall|j: int| 0 <= j < self.queue@.len() implies {
                let e = #[trigger] self.queue@[j];
                &&& has_record(recs1, e.job_id)
                &&& recs1[record_index(recs1, e.job_id)].job.status == ScheduledJobStatus::Queued
                &&& recs1[record_index(recs1, e.job_id)].job.priority == e.priority
                &&& recs1[record_index(recs1, e.job_id)].job.admitted_at == Some(e.admitted_at)
            } by {
                let e = self.queue@[j];
                assert(e == old(self).queue@[j]);
                if e.job_id == job_id {
                    assert(recs0[record_index(recs0, e.job_id)].job.status
                        == ScheduledJobStatus::Queued);
                    assert(false);
                }
                assert(record_index(recs1, e.job_id) == record_index(recs0, e.job_id));
                assert(record_index(recs0, e.job_id) != i);
            }
            assert forall|j: int| 0 <= j < self.in_flight@.len() implies {
                let fid = #[trigger] self.in_flight@[j];
                &&& has_record(recs1, fid)
                &&& (recs1[record_index(recs1, fid)].job.status == ScheduledJobStatus::Submitted
                    || recs1[record_index(recs1, fid)].job.status == ScheduledJobStatus::Running)
            } by {
                let fid = self.in_flight@[j];
                assert(old(self).in_flight@.contains(fid));
                if fid != job_id {
                    assert(record_index(recs1, fid) == record_index(recs0, fid));
                    assert(record_index(recs0, fid) != i);
                }
            }
        }
        disposition
    }

    /// Remove a job id from the in-flight set, if present.
    fn remove_in_flight(&mut self, job_id: ScheduledJobId)
        requires
            forall|j1: int, j2: int|
                0 <= j1 < old(self).in_flight@.len() && 0 <= j2 < old(self).in_flight@.len()
                && j1 != j2 ==> #[trigger] old(self).in_flight@[j1]
                    != #[trigger] old(self).in_flight@[j2],
        ensures
            final(self).store == old(self).store,
            final(self).queue == old(self).queue,
            final(self).workflows == old(self).workflows,
            final(self).config == old(self).config,
            final(self).next_job_id == old(self).next_job_id,
            final(self).next_workflow_id == old(self).next_workflow_id,
            old(self).in_flight@.contains(job_id) ==> final(self).in_flight@ =~= old(self).in_flight@.remove(spec_position(old(self).in_flight@, job_id)),
            !old(self).in_flight@.contains(job_id) ==> final(self).in_flight@ =~= old(self).in_flight@,
            forall|j: int| 0 <= j < final(self).in_flight@.len()
                ==> #[trigger] final(self).in_flight@[j] != job_id,
            forall|j: int| 0 <= j < final(self).in_flight@.len()
                ==> old(self).in_flight@.contains(#[trigger] final(self).in_flight@[j]),
            forall|j1: int, j2: int|
                0 <= j1 < final(self).in_flight@.len() && 0 <= j2 < final(self).in_flight@.len()
                && j1 != j2 ==> #[trigger] final(self).in_flight@[j1]
                    != #[trigger] final(self).in_flight@[j2],
    {
        let n = self.in_flight.len();
        let mut idx: usize = 0;
        while idx < n
            invariant
                0 <= idx <= n,
                n == self.in_flight@.len(),
                *self == *old(self),
                forall|j: int| 0 <= j < idx ==> #[trigger] self.in_flight@[j] != job_id,
            decreases n - idx,
        {
            if self.in_flight[idx] == job_id {
                proof {
                    assert(old(self).in_flight@.contains(job_id));
                    assert forall|j: int|
                        0 <= j < old(self).in_flight@.len()
                        && #[trigger] old(self).in_flight@[j] == job_id
                        implies j == idx as int by {}
                    assert(spec_position(old(self).in_flight@, job_id) == idx as int);
                }
                self.in_flight.remove(idx);
                proof {
                    let olds = old(self).in_flight@;
                    assert forall|j1: int, j2: int|
                        0 <= j1 < self.in_flight@.len() && 0 <= j2 < self.in_flight@.len()
                        && j1 != j2 implies #[trigger] self.in_flight@[j1]
                            != #[trigger] self.in_flight@[j2] by {
                        let m1: int = if j1 < idx as int { j1 } else { j1 + 1 };
                        let m2: int = if j2 < idx as int { j2 } else { j2 + 1 };
                        assert(self.in_flight@[j1] == olds[m1]);
                        assert(self.in_flight@[j2] == olds[m2]);
                    }
                    assert forall|j: int| 0 <= j < self.in_flight@.len()
                        implies #[trigger] self.in_flight@[j] != job_id by {
                        let m: int = if j < idx as int { j } else { j + 1 };
                        assert(self.in_flight@[j] == olds[m]);
                    }
                    assert forall|j: int| 0 <= j < self.in_flight@.len()
                        implies old(self).in_flight@.contains(
                        #[trigger] self.in_flight@[j]) by {
                        let m: int = if j < idx as int { j } else { j + 1 };
                        assert(self.in_flight@[j] == olds[m]);
                    }
                }
                return;
            }
            idx = idx + 1;
        }
        proof {
            assert forall|j: int| 0 <= j < self.in_flight@.len()
                implies old(self).in_flight@.contains(#[trigger] self.in_flight@[j]) by {
                assert(self.in_flight@[j] == old(self).in_flight@[j]);
            }
        }
    }

    /// Request cancellation of a job. Always accepted idempotently: a job
    /// already terminal (`Cancelled`, `Completed` or `Failed`) is left
    /// unchanged and the request succeeds. A job not yet handed to the
    /// external system is cancelled and persisted at once; for an external
    /// job the caller is told the handle to best-effort inform the batch
    /// manager with, and reports back through [`Scheduler::on_poll`].
    pub fn cancel(&mut self, job_id: ScheduledJobId, now: u64) -> (r: SchedResult<
        CancelDisposition,
    >)
        requires
            old(self).wf(),
        ensures
            final(self).wf(),
            final(self).workflows == old(self).workflows,
            final(self).config == old(self).config,
            final(self).in_flight == old(self).in_flight,
            final(self).next_job_id == old(self).next_job_id,
            final(self).next_workflow_id == old(self).next_workflow_id,
            r is Err <==> !has_record(old(self).store.spec_records(), job_id),
            r is Err ==> *final(self) == *old(self) && r == Err::<CancelDisposition, SchedError>(
                SchedError::UnknownJob,
            ),
            ({
                let recs = old(self).store.spec_records();
                let i = record_index(recs, job_id);
                let job0 = recs[i].job;
                has_record(recs, job_id) ==> {
                    &&& (job0.status.spec_is_terminal() ==> (*final(self) == *old(self)
                        && r == Ok::<CancelDisposition, SchedError>(
                        CancelDisposition::AlreadyTerminal,
                    )))
                    &&& ((job0.status == ScheduledJobStatus::Submitted
                        || job0.status == ScheduledJobStatus::Running) ==> (*final(self) == *old(self) && r == Ok::<CancelDisposition, SchedError>(
                        CancelDisposition::CancelRequested(job0.external_handle->0),
                    )))
                    &&& ((job0.status == ScheduledJobStatus::Pending
                        || job0.status == ScheduledJobStatus::Queued) ==> {
                        &&& r == Ok::<CancelDisposition, SchedError>(
                            CancelDisposition::CancelledLocally,
                        )
                        &&& final(self).store.spec_records() =~= recs.update(i, StoredJob {
                            job: ScheduledJob {
                                status: ScheduledJobStatus::Cancelled,
                                updated_at: now,
                                ..job0
                            },
                            version: spec_bump(recs[i].version),
                        })
                        &&& (job0.status == ScheduledJobStatus::Pending ==> final(self).queue
                            == old(self).queue)
                        &&& (job0.status == ScheduledJobStatus::Queued ==> {
                            let q = old(self).queue@;
                            &&& (q.contains(QueueEntry {
                                job_id,
                                priority: job0.priority,
                                admitted_at: job0.admitted_at->0,
                            }) ==> final(self).queue@ =~= q.remove(spec_entry_position(q, job_id)))
                            &&& (forall|j: int| 0 <= j < final(self).queue@.len()
                                ==> #[trigger] final(self).queue@[j].job_id != job_id)
                        })
                    })
                }
            }),
    {
        let ghost recs0 = self.store.spec_records();
        let ghost i = record_index(recs0, job_id);
        let mut job = match self.store.get(job_id) {
            Some(job) => job,
            None => {
                return Err(SchedError::UnknownJob);
            },
        };
        if job.status.is_terminal() {
            return Ok(CancelDisposition::AlreadyTerminal);
        }
        if matches!(job.status, ScheduledJobStatus::Submitted)
            || matches!(job.status, ScheduledJobStatus::Running)
        {
            let handle = match job.external_handle {
                Some(h) => h,
                None => {
                    proof {
                        assert(false);
                    }
                    0
                },
            };
            return Ok(CancelDisposition::CancelRequested(handle));
        }
        if matches!(job.status, ScheduledJobStatus::Queued) {
            self.remove_queue_entry(job_id);
        }
        let marked = job.mark_cancelled(now);
        proof {
            assert(marked is Ok);
        }
        self.store.put(job);
        proof {
            let recs1 = self.store.spec_records();
            crate::persistence::lemma_record_index(recs0, job_id);
            crate::persistence::lemma_update_same_id(recs0, i, recs1[i]);
            assert(recs1 =~= recs0.update(i, recs1[i]));
            assert forall|j: int| 0 <= j < self.queue@.len() implies {
                let e = #[trigger] self.queue@[j];
                &&& has_record(recs1, e.job_id)
                &&& recs1[record_index(recs1, e.job_id)].job.status == ScheduledJobStatus::Queued
                &&& recs1[record_index(recs1, e.job_id)].job.priority == e.priority
                &&& recs1[record_index(recs1, e.job_id)].job.admitted_at == Some(e.admitted_at)
            } by {
                let e = self.queue@[j];
                assert(e.job_id != job_id);
                assert(record_index(recs1, e.job_id) == record_index(recs0, e.job_id));
                assert(record_index(recs0, e.job_id) != i);
            }
            assert forall|j: int| 0 <= j < self.in_flight@.len() implies {
                let fid = #[trigger] self.in_flight@[j];
                &&& has_record(recs1, fid)
                &&& (recs1[record_index(recs1, fid)].job.status == ScheduledJobStatus::Submitted
                    || recs1[record_index(recs1, fid)].job.status == ScheduledJobStatus::Running)
            } by {
                let fid = self.in_flight@[j];
                if fid == job_id {
                    assert(recs0[record_index(recs0, fid)].job.status
                        == ScheduledJobStatus::Submitted
                        || recs0[record_index(recs0, fid)].job.status
                            == ScheduledJobStatus::Running);
                    assert(false);
                }
                assert(record_index(recs1, fid) == record_index(recs0, fid));
                assert(record_index(recs0, fid) != i);
            }
        }
        Ok(CancelDisposition::CancelledLocally)
    }

    /// Find the index of the workflow with this id.
    fn find_workflow(&self, workflow_id: WorkflowId) -> (r: Option<usize>)
        ensures
            r matches Some(wi) ==> wi < self.workflows@.len()
                && self.workflows@[wi as int].id == workflow_id,
            r is None <==> (forall|w: int| 0 <= w < self.workflows@.len()
                ==> (#[trigger] self.workflows@[w]).id != workflow_id),
    {
        let n = self.workflows.len();
        let mut w: usize = 0;
        while w < n
            invariant
                0 <= w <= n,
                n == self.workflows@.len(),
                forall|v: int| 0 <= v < w ==> (#[trigger] self.workflows@[v]).id != workflow_id,
            decreases n - w,
        {
            if self.workflows[w].id == workflow_id {
                return Some(w);
            }
            w = w + 1;
        }
        None
    }

    /// Find the first workflow containing job `job_id`.
    fn find_workflow_of(&self, job_id: ScheduledJobId) -> (r: Option<usize>)
        requires
            self.wf(),
        ensures
            r matches Some(wi) ==> wi < self.workflows@.len()
                && self.workflows@[wi as int].spec_has_job(job_id)
                && (forall|w: int| 0 <= w < wi
                    ==> !(#[trigger] self.workflows@[w]).spec_has_job(job_id)),
            r is None <==> (forall|w: int| 0 <= w < self.workflows@.len()
                ==> !(#[trigger] self.workflows@[w]).spec_has_job(job_id)),
    {
        let n = self.workflows.len();
        let mut w: usize = 0;
        while w < n
            invariant
                0 <= w <= n,
                n == self.workflows@.len(),
                forall|v: int| 0 <= v < w ==> !(#[trigger] self.workflows@[v]).spec_has_job(job_id),
            decreases n - w,
        {
            if self.workflows[w].find_node(job_id).is_some() {
                return Some(w);
            }
            w = w + 1;
        }
        None
    }

    /// Admit a new, empty workflow; jobs are added to it with
    /// [`Scheduler::add_workflow_job`]. Returns the generated workflow id.
    pub fn admit_workflow(&mut self, propagate_failures: bool) -> (r: WorkflowId)
        requires
            old(self).wf(),
            old(self).next_workflow_id < u64::MAX,
        ensures
            final(self).wf(),
            r == old(self).next_workflow_id,
            final(self).next_workflow_id == old(self).next_workflow_id + 1,
            final(self).workflows@.len() == old(self).workflows@.len() + 1,
            final(self).workflows@.subrange(0, old(self).workflows@.len() as int) =~= old(
                self,
            ).workflows@,
            final(self).workflows@.last().id == r,
            final(self).workflows@.last().propagate_failures == propagate_failures,
            final(self).workflows@.last().nodes@.len() == 0,
            final(self).store == old(self).store,
            final(self).queue == old(self).queue,
            final(self).in_flight == old(self).in_flight,
            final(self).config == old(self).config,
            final(self).next_job_id == old(self).next_job_id,
    {
        let id = self.next_workflow_id;
        let w = Workflow::new(id, propagate_failures);
        self.workflows.push(w);
        self.next_workflow_id = id + 1;
        proof {
            assert(final(self).workflows@.subrange(0, old(self).workflows@.len() as int) =~= old(
                self,
            ).workflows@);
        }
        id
    }

    /// Add a job to a workflow, depending on jobs already in it.
    ///
    /// The job is validated and persisted; with no dependencies it is
    /// admitted into the queue at once, otherwise it waits `Pending` until
    /// its predecessors complete and a readiness scan releases it. Rejected
    /// with `UnknownWorkflow`, `InvalidJobSpec`, `CyclicDependency`,
    /// `UnknownDependency` or `DuplicateJob` exactly as those conditions
    /// hold, and rejection changes nothing.
    pub fn add_workflow_job(
        &mut self,
        workflow_id: WorkflowId,
        name: String,
        priority: Priority,
        requirements: ResourceRequirements,
        circuit: CircuitSpec,
        depends_on: &Vec<ScheduledJobId>,
        now: u64,
    ) -> (r: SchedResult<ScheduledJobId>)
        requires
            old(self).wf(),
            old(self).next_job_id < u64::MAX,
        ensures
            final(self).wf(),
            final(self).config == old(self).config,
            final(self).in_flight == old(self).in_flight,
            final(self).next_workflow_id == old(self).next_workflow_id,
            r is Err ==> (final(self).store == old(self).store
                && final(self).queue == old(self).queue
                && final(self).workflows@ =~= old(self).workflows@
                && final(self).next_job_id == old(self).next_job_id),
            r == Err::<ScheduledJobId, SchedError>(SchedError::UnknownWorkflow) <==> (forall|w: int|
                0 <= w < old(self).workflows@.len()
                ==> (#[trigger] old(self).workflows@[w]).id != workflow_id),
            ({
                let found = exists|w: int| 0 <= w < old(self).workflows@.len()
                    && (#[trigger] old(self).workflows@[w]).id == workflow_id;
                let wi = choose|w: int| 0 <= w < old(self).workflows@.len()
                    && (#[trigger] old(self).workflows@[w]).id == workflow_id;
                let id = old(self).next_job_id;
                found ==> {
                    &&& (r == Err::<ScheduledJobId, SchedError>(SchedError::InvalidJobSpec)
                        <==> !requirements.spec_valid())
                    &&& (requirements.spec_valid() ==> {
                        let w0 = old(self).workflows@[wi];
                        &&& (r == Err::<ScheduledJobId, SchedError>(SchedError::DuplicateJob)
                            <==> w0.spec_has_job(id))
                        &&& (!w0.spec_has_job(id) ==> (r == Err::<ScheduledJobId, SchedError>(
                            SchedError::CyclicDependency,
                        ) <==> depends_on@.contains(id)))
                        &&& ((!w0.spec_has_job(id) && !depends_on@.contains(id)) ==> (r
                            == Err::<ScheduledJobId, SchedError>(SchedError::UnknownDependency)
                            <==> exists|k: int| 0 <= k < depends_on@.len()
                                && !w0.spec_has_job(#[trigger] depends_on@[k])))
                        &&& (r matches Ok(rid) ==> {
                            let job = ScheduledJob {
                                id,
                                name,
                                priority,
                                requirements,
                                circuit,
                                status: if depends_on@.len() == 0 {
                                    ScheduledJobStatus::Queued
                                } else {
                                    ScheduledJobStatus::Pending
                                },
                                backend: None,
                                external_handle: None,
                                retries: 0,
                                admitted_at: if depends_on@.len() == 0 {
                                    Some(now)
                                } else {
                                    None
                                },
                                created_at: now,
                                updated_at: now,
                                result: None,
                                failure: None,
                            };
                            &&& rid == id
                            &&& final(self).next_job_id == id + 1
                            &&& final(self).store.spec_records() =~= old(
                                self,
                            ).store.spec_records().push(StoredJob { job, version: 1 })
                            &&& (depends_on@.len() == 0 ==> final(self).queue@ =~= old(
                                self,
                            ).queue@.push(QueueEntry { job_id: id, priority, admitted_at: now }))
                            &&& (depends_on@.len() > 0 ==> final(self).queue@ =~= old(self).queue@)
                            &&& final(self).workflows@.len() == old(self).workflows@.len()
                            &&& (forall|w: int| 0 <= w < old(self).workflows@.len() && w != wi
                                ==> final(self).workflows@[w] == old(self).workflows@[w])
                            &&& ({
                                let nodes1 = final(self).workflows@[wi].nodes@;
                                let node = nodes1.last();
                                &&& final(self).workflows@[wi].id == workflow_id
                                &&& nodes1.len() == w0.nodes@.len() + 1
                                &&& nodes1.subrange(0, w0.nodes@.len() as int) =~= w0.nodes@
                                &&& node.job_id == id
                                &&& node.status == ScheduledJobStatus::Pending
                                &&& node.queued == (depends_on@.len() == 0)
                                &&& node.deps@.len() == depends_on@.len()
                                &&& (forall|k: int| 0 <= k < depends_on@.len()
                                    ==> w0.nodes@[#[trigger] node.deps@[k] as int].job_id
                                        == depends_on@[k])
                            })
                        })
                    })
                }
            }),
    {
        let wi = match self.find_workflow(workflow_id) {
            Some(wi) => wi,
            None => {
                return Err(SchedError::UnknownWorkflow);
            },
        };
        proof {
            let cwi = choose|w: int| 0 <= w < old(self).workflows@.len()
                && (#[trigger] old(self).workflows@[w]).id == workflow_id;
            assert(old(self).workflows@[wi as int].id == workflow_id);
            assert(cwi == wi as int);
        }
        if !requirements.valid() {
            return Err(SchedError::InvalidJobSpec);
        }
        let id = self.next_job_id;
        let w = &mut self.workflows[wi];
        let added = w.add_job(id, depends_on);
        match added {
            Ok(()) => {},
            Err(e) => {
                proof {
                    assert(self.workflows@ =~= old(self).workflows@);
                }
                return Err(e);
            },
        }
        let mut job = match ScheduledJob::new(id, name, priority, requirements, circuit, now) {
            Ok(job) => job,
            Err(_) => {
                proof {
                    assert(false);
                }
                return Err(SchedError::InvalidJobSpec);
            },
        };
        if depends_on.len() == 0 {
            let queued = job.mark_queued(now);
            proof {
                assert(queued is Ok);
            }
            let wq = self.workflows[wi].mark_queued(id);
            proof {
                assert(wq is Ok);
            }
            self.queue.push(QueueEntry { job_id: id, priority, admitted_at: now });
        }
        proof {
            if has_record(self.store.spec_records(), id) {
                let i = record_index(self.store.spec_records(), id);
                assert(self.store.spec_records()[i].job.id < self.next_job_id);
                assert(false);
            }
        }
        self.store.put(job);
        self.next_job_id = id + 1;
        proof {
            let recs0 = old(self).store.spec_records();
            let recs1 = self.store.spec_records();
            let rec = recs1.last();
            assert(recs1 =~= recs0.push(rec));
            crate::persistence::lemma_push_fresh(recs0, rec);
            assert forall|j: int| 0 <= j < self.queue@.len() implies {
                let e = #[trigger] self.queue@[j];
                &&& has_record(recs1, e.job_id)
                &&& recs1[record_index(recs1, e.job_id)].job.status == ScheduledJobStatus::Queued
                &&& recs1[record_index(recs1, e.job_id)].job.priority == e.priority
                &&& recs1[record_index(recs1, e.job_id)].job.admitted_at == Some(e.admitted_at)
            } by {
                let e = self.queue@[j];
                if j < old(self).queue@.len() {
                    assert(e == old(self).queue@[j]);
                    assert(recs0[record_index(recs0, e.job_id)].job.id == e.job_id);
                    assert(e.job_id != id);
                    assert(recs1[record_index(recs1, e.job_id)]
                        == recs0[record_index(recs0, e.job_id)]);
                }
            }
            assert forall|j: int| 0 <= j < self.in_flight@.len() implies {
                let fid = #[trigger] self.in_flight@[j];
                &&& has_record(recs1, fid)
                &&& (recs1[record_index(recs1, fid)].job.status == ScheduledJobStatus::Submitted
                    || recs1[record_index(recs1, fid)].job.status == ScheduledJobStatus::Running)
            } by {
                let fid = self.in_flight@[j];
                assert(recs0[record_index(recs0, fid)].job.id == fid);
                assert(fid != id);
                assert(recs1[record_index(recs1, fid)] == recs0[record_index(recs0, fid)]);
            }
            assert forall|j1: int, j2: int|
                0 <= j1 < self.queue@.len() && 0 <= j2 < self.queue@.len() && j1 != j2
                implies #[trigger] self.queue@[j1].job_id != #[trigger] self.queue@[j2].job_id by {
                if j1 == old(self).queue@.len() as int {
                    assert(recs0[record_index(recs0, self.queue@[j2].job_id)].job.id
                        == self.queue@[j2].job_id);
                } else if j2 == old(self).queue@.len() as int {
                    assert(recs0[record_index(recs0, self.queue@[j1].job_id)].job.id
                        == self.queue@[j1].job_id);
                }
            }
        }
        Ok(id)
    }

    /// The jobs of a workflow whose predecessors have all completed and which
    /// are not yet queued, in node order: the readiness scan.
    pub fn ready_in_workflow(&self, workflow_id: WorkflowId) -> (r: SchedResult<
        Vec<ScheduledJobId>,
    >)
        requires
            self.wf(),
        ensures
            r is Err <==> (forall|w: int| 0 <= w < self.workflows@.len()
                ==> (#[trigger] self.workflows@[w]).id != workflow_id),
            r is Err ==> r == Err::<Vec<ScheduledJobId>, SchedError>(SchedError::UnknownWorkflow),
            r matches Ok(v) ==> {
                let wi = choose|w: int| 0 <= w < self.workflows@.len()
                    && (#[trigger] self.workflows@[w]).id == workflow_id;
                v@ =~= crate::workflow::ready_seq(
                    self.workflows@[wi].nodes@,
                    self.workflows@[wi].nodes@.len() as int,
                )
            },
    {
        match self.find_workflow(workflow_id) {
            Some(wi) => {
                proof {
                    let cwi = choose|w: int| 0 <= w < self.workflows@.len()
                        && (#[trigger] self.workflows@[w]).id == workflow_id;
                    assert(self.workflows@[wi as int].id == workflow_id);
                    assert(cwi == wi as int);
                }
                Ok(self.workflows[wi].ready_jobs())
            },
            None => Err(SchedError::UnknownWorkflow),
        }
    }

    /// Whether some workflow contains job `id`.
    pub open spec fn spec_has_owner(self, id: ScheduledJobId) -> bool {
        exists|w: int| 0 <= w < self.workflows@.len()
            && (#[trigger] self.workflows@[w]).spec_has_job(id)
    }

    /// The first workflow containing job `id`.
    pub open spec fn spec_owner_workflow(self, id: ScheduledJobId) -> int {
        choose|w: int|
            0 <= w < self.workflows@.len() && (#[trigger] self.workflows@[w]).spec_has_job(id)
            && (forall|v: int| 0 <= v < w ==> !(#[trigger] self.workflows@[v]).spec_has_job(id))
    }

    /// Release a job whose dependencies are satisfied into the queue:
    /// `Pending -> Queued`, persisted, entered into the queue under `now` as
    /// its admission timestamp, and marked queued in its workflow. Called
    /// for each id the readiness scan produces after a completion.
    #[verifier::rlimit(60)]
    pub fn enqueue_job(&mut self, job_id: ScheduledJobId, now: u64) -> (r: SchedResult<()>)
        requires
            old(self).wf(),
        ensures
            final(self).wf(),
            final(self).config == old(self).config,
            final(self).in_flight == old(self).in_flight,
            final(self).next_job_id == old(self).next_job_id,
            final(self).next_workflow_id == old(self).next_workflow_id,
            r is Err ==> (final(self).store == old(self).store
                && final(self).queue == old(self).queue
                && final(self).workflows@ =~= old(self).workflows@),
            r == Err::<(), SchedError>(SchedError::UnknownJob)
                <==> !has_record(old(self).store.spec_records(), job_id),
            ({
                let recs = old(self).store.spec_records();
                let i = record_index(recs, job_id);
                let job0 = recs[i].job;
                has_record(recs, job_id) ==> {
                    &&& (r == Err::<(), SchedError>(SchedError::IllegalTransition)
                        <==> job0.status != ScheduledJobStatus::Pending)
                    &&& (r is Ok ==> {
                        &&& final(self).store.spec_records() =~= recs.update(i, StoredJob {
                            job: ScheduledJob {
                                status: ScheduledJobStatus::Queued,
                                admitted_at: Some(now),
                                updated_at: now,
                                ..job0
                            },
                            version: spec_bump(recs[i].version),
                        })
                        &&& final(self).queue@ =~= old(self).queue@.push(QueueEntry {
                            job_id,
                            priority: job0.priority,
                            admitted_at: now,
                        })
                        &&& (!old(self).spec_has_owner(job_id) ==> final(self).workflows@ =~= old(
                            self,
                        ).workflows@)
                        &&& (old(self).spec_has_owner(job_id) ==> {
                            let wi = old(self).spec_owner_workflow(job_id);
                            let w0 = old(self).workflows@[wi];
                            let ni = w0.spec_index_of(job_id);
                            &&& final(self).workflows@.len() == old(self).workflows@.len()
                            &&& (forall|w: int| 0 <= w < old(self).workflows@.len() && w != wi
                                ==> final(self).workflows@[w] == old(self).workflows@[w])
                            &&& final(self).workflows@[wi].id == w0.id
                            &&& final(self).workflows@[wi].propagate_failures
                                == w0.propagate_failures
                            &&& final(self).workflows@[wi].nodes@ =~= w0.nodes@.update(
                                ni,
                                WorkflowNode { queued: true, ..w0.nodes@[ni] },
                            )
                        })
                    })
                }
            }),
    {
        let ghost recs0 = self.store.spec_records();
        let ghost i = record_index(recs0, job_id);
        let mut job = match self.store.get(job_id) {
            Some(job) => job,
            None => {
                return Err(SchedError::UnknownJob);
            },
        };
        if !matches!(job.status, ScheduledJobStatus::Pending) {
            return Err(SchedError::IllegalTransition);
        }
        let priority = job.priority;
        let owner = self.find_workflow_of(job_id);
        let queued = job.mark_queued(now);
        proof {
            assert(queued is Ok);
        }
        self.store.put(job);
        self.queue.push(QueueEntry { job_id, priority, admitted_at: now });
        match owner {
            Some(wi) => {
                proof {
                    let cwi = old(self).spec_owner_workflow(job_id);
                    assert(old(self).spec_has_owner(job_id));
                    assert(self.workflows@[wi as int].spec_has_job(job_id));
                    assert(self.workflows@ == old(self).workflows@);
                    assert forall|w: int|
                        0 <= w < old(self).workflows@.len()
                        && (#[trigger] old(self).workflows@[w]).spec_has_job(job_id)
                        && (forall|v: int| 0 <= v < w
                            ==> !(#[trigger] old(self).workflows@[v]).spec_has_job(job_id))
                        implies w == wi as int by {}
                }
                let wq = self.workflows[wi].mark_queued(job_id);
                proof {
                    assert(wq is Ok);
                }
            },
            None => {},
        }
        proof {
            let recs1 = self.store.spec_records();
            crate::persistence::lemma_record_index(recs0, job_id);
            crate::persistence::lemma_update_same_id(recs0, i, recs1[i]);
            assert(recs1 =~= recs0.update(i, recs1[i]));
            assert forall|j: int| 0 <= j < self.queue@.len() implies {
                let e = #[trigger] self.queue@[j];
                &&& has_record(recs1, e.job_id)
                &&& recs1[record_index(recs1, e.job_id)].job.status == ScheduledJobStatus::Queued
                &&& recs1[record_index(recs1, e.job_id)].job.priority == e.priority
                &&& recs1[record_index(recs1, e.job_id)].job.admitted_at == Some(e.admitted_at)
            } by {
                let e = self.queue@[j];
                if j < old(self).queue@.len() {
                    assert(e == old(self).queue@[j]);
                    if e.job_id == job_id {
                        assert(recs0[record_index(recs0, e.job_id)].job.status
                            == ScheduledJobStatus::Queued);
                        assert(false);
                    }
                    assert(record_index(recs1, e.job_id) == record_index(recs0, e.job_id));
                    assert(record_index(recs0, e.job_id) != i);
                } else {
                    assert(record_index(recs1, e.job_id) == i);
                }
            }
            assert forall|j1: int, j2: int|
                0 <= j1 < self.queue@.len() && 0 <= j2 < self.queue@.len() && j1 != j2
                implies #[trigger] self.queue@[j1].job_id != #[trigger] self.queue@[j2].job_id by {
                if j1 == old(self).queue@.len() as int {
                    assert(recs0[record_index(recs0, self.queue@[j2].job_id)].job.status
                        == ScheduledJobStatus::Queued);
                } else if j2 == old(self).queue@.len() as int {
                    assert(recs0[record_index(recs0, self.queue@[j1].job_id)].job.status
                        == ScheduledJobStatus::Queued);
                }
            }
            assert forall|j: int| 0 <= j < self.in_flight@.len() implies {
                let fid = #[trigger] self.in_flight@[j];
                &&& has_record(recs1, fid)
                &&& (recs1[record_index(recs1, fid)].job.status == ScheduledJobStatus::Submitted
                    || recs1[record_index(recs1, fid)].job.status == ScheduledJobStatus::Running)
            } by {
                let fid = self.in_flight@[j];
                if fid == job_id {
                    assert(recs0[record_index(recs0, fid)].job.status
                        == ScheduledJobStatus::Pending);
                    assert(false);
                }
                assert(record_index(recs1, fid) == record_index(recs0, fid));
                assert(record_index(recs0, fid) != i);
            }
        }
        Ok(())
    }

    /// Mirror the persisted status of job `id` into the workflow containing
    /// it, so aggregate status derivation and the readiness scan see it.
    /// A job outside any workflow is accepted without change.
    pub fn sync_workflow(&mut self, job_id: ScheduledJobId) -> (r: SchedResult<()>)
        requires
            old(self).wf(),
        ensures
            final(self).wf(),
            final(self).store == old(self).store,
            final(self).queue == old(self).queue,
            final(self).in_flight == old(self).in_flight,
            final(self).config == old(self).config,
            final(self).next_job_id == old(self).next_job_id,
            final(self).next_workflow_id == old(self).next_workflow_id,
            r is Err <==> !has_record(old(self).store.spec_records(), job_id),
            r is Err ==> final(self).workflows@ =~= old(self).workflows@
                && r == Err::<(), SchedError>(SchedError::UnknownJob),
            r is Ok ==> {
                let recs = old(self).store.spec_records();
                let st = recs[record_index(recs, job_id)].job.status;
                &&& (!old(self).spec_has_owner(job_id) ==> final(self).workflows@ =~= old(
                    self,
                ).workflows@)
                &&& (old(self).spec_has_owner(job_id) ==> {
                    let wi = old(self).spec_owner_workflow(job_id);
                    let w0 = old(self).workflows@[wi];
                    let ni = w0.spec_index_of(job_id);
                    &&& final(self).workflows@.len() == old(self).workflows@.len()
                    &&& (forall|w: int| 0 <= w < old(self).workflows@.len() && w != wi
                        ==> final(self).workflows@[w] == old(self).workflows@[w])
                    &&& final(self).workflows@[wi].id == w0.id
                    &&& final(self).workflows@[wi].propagate_failures == w0.propagate_failures
                    &&& final(self).workflows@[wi].nodes@ =~= w0.nodes@.update(ni, WorkflowNode {
                        status: st,
                        ..w0.nodes@[ni]
                    })
                })
            },
    {
        let job = match self.store.get(job_id) {
            Some(job) => job,
            None => {
                return Err(SchedError::UnknownJob);
            },
        };
        match self.find_workflow_of(job_id) {
            Some(wi) => {
                proof {
                    assert(old(self).spec_has_owner(job_id));
                    assert forall|w: int|
                        0 <= w < old(self).workflows@.len()
                        && (#[trigger] old(self).workflows@[w]).spec_has_job(job_id)
                        && (forall|v: int| 0 <= v < w
                            ==> !(#[trigger] old(self).workflows@[v]).spec_has_job(job_id))
                        implies w == wi as int by {}
                }
                let ws = self.workflows[wi].set_job_status(job_id, job.status);
                proof {
                    assert(ws is Ok);
                }
            },
            None => {},
        }
        Ok(())
    }

    /// The last persisted snapshot of a job, usable at any time, including
    /// after a restart.
    pub fn get_status(&self, job_id: ScheduledJobId) -> (r: Option<ScheduledJob>)
        requires
            self.wf(),
        ensures
            r is Some <==> has_record(self.store.spec_records(), job_id),
            r matches Some(job) ==> job == self.store.spec_records()[record_index(
                self.store.spec_records(),
                job_id,
            )].job,
    {
        self.store.get(job_id)
    }

    /// The aggregate status of a workflow, derived from its mirrored job
    /// statuses.
    pub fn workflow_status(&self, workflow_id: WorkflowId) -> (r: SchedResult<
        crate::workflow::WorkflowStatus,
    >)
        requires
            self.wf(),
        ensures
            r is Err <==> (forall|w: int| 0 <= w < self.workflows@.len()
                ==> (#[trigger] self.workflows@[w]).id != workflow_id),
            r is Err ==> r == Err::<crate::workflow::WorkflowStatus, SchedError>(
                SchedError::UnknownWorkflow,
            ),
            r matches Ok(st) ==> {
                let wi = choose|w: int| 0 <= w < self.workflows@.len()
                    && (#[trigger] self.workflows@[w]).id == workflow_id;
                st == self.workflows@[wi].spec_status()
            },
    {
        match self.find_workflow(workflow_id) {
            Some(wi) => {
                proof {
                    let cwi = choose|w: int| 0 <= w < self.workflows@.len()
                        && (#[trigger] self.workflows@[w]).id == workflow_id;
                    assert(self.workflows@[wi as int].id == workflow_id);
                    assert(cwi == wi as int);
                }
                Ok(self.workflows[wi].status())
            },
            None => Err(SchedError::UnknownWorkflow),
        }
    }

    /// Rebuild a scheduler from a store after a restart: the sole recovery
    /// mechanism. The queue is rebuilt from the `Queued` records under their
    /// persisted admission keys and the in-flight set from the `Submitted`
    /// and `Running` records — exactly the store's active-job set, no job
    /// lost or duplicated (see `lemma_recovery_exact`). Workflow graphs are
    /// re-admitted by the surrounding application.
    pub fn recover(config: SchedulerConfig, store: MemStore) -> (s: Scheduler)
        requires
            store.inv(),
            forall|i: int| 0 <= i < store.spec_records().len()
                ==> (#[trigger] store.spec_records()[i].job).wf(),
            forall|i: int| 0 <= i < store.spec_records().len()
                ==> (#[trigger] store.spec_records()[i].job).id < u64::MAX,
        ensures
            s.wf(),
            s.config == config,
            s.store == store,
            s.workflows@.len() == 0,
            s.queue@ =~= queued_entries(store.spec_records(), store.spec_records().len() as int),
            s.in_flight@ =~= inflight_ids(
                store.spec_records(),
                store.spec_records().len() as int,
            ),
    {
        let ghost recs = store.spec_records();
        let n = store.records.len();
        let mut next_job_id: u64 = 0;
        let mut entries: Vec<QueueEntry> = Vec::new();
        let mut in_flight: Vec<ScheduledJobId> = Vec::new();
        let mut i: usize = 0;
        while i < n
            invariant
                0 <= i <= n,
                n == recs.len(),
                recs == store.spec_records(),
                store.inv(),
                forall|k: int| 0 <= k < recs.len() ==> (#[trigger] recs[k].job).wf(),
                forall|k: int| 0 <= k < recs.len() ==> (#[trigger] recs[k].job).id < u64::MAX,
                forall|k: int| 0 <= k < i ==> (#[trigger] recs[k].job).id < next_job_id,
                entries@ =~= queued_entries(recs, i as int),
                in_flight@ =~= inflight_ids(recs, i as int),
            decreases n - i,
        {
            let rec = &store.records[i];
            if rec.job.id >= next_job_id {
                next_job_id = rec.job.id + 1;
            }
            match rec.job.status {
                ScheduledJobStatus::Queued => {
                    let admitted = match rec.job.admitted_at {
                        Some(t) => t,
                        None => {
                            proof {
                                assert(false);
                            }
                            0
                        },
                    };
                    entries.push(QueueEntry {
                        job_id: rec.job.id,
                        priority: rec.job.priority,
                        admitted_at: admitted,
                    });
                },
                ScheduledJobStatus::Submitted | ScheduledJobStatus::Running => {
                    in_flight.push(rec.job.id);
                },
                _ => {},
            }
            i = i + 1;
        }
        let s = Scheduler {
            config,
            store,
            queue: PriorityQueue { entries },
            in_flight,
            workflows: Vec::new(),
            next_job_id,
            next_workflow_id: 0,
        };
        proof {
            lemma_queued_entries_props(recs, recs.len() as int);
            lemma_inflight_ids_props(recs, recs.len() as int);
            assert forall|j: int| 0 <= j < s.queue@.len() implies {
                let e = #[trigger] s.queue@[j];
                &&& has_record(recs, e.job_id)
                &&& recs[record_index(recs, e.job_id)].job.status == ScheduledJobStatus::Queued
                &&& recs[record_index(recs, e.job_id)].job.priority == e.priority
                &&& recs[record_index(recs, e.job_id)].job.admitted_at == Some(e.admitted_at)
            } by {
                let e = s.queue@[j];
                let k = choose|k: int|
                    0 <= k < recs.len() && #[trigger] s.queue@[j] == spec_entry_of(recs[k].job)
                    && recs[k].job.status == ScheduledJobStatus::Queued;
                assert(recs[k].job.id == e.job_id);
                crate::persistence::lemma_record_index(recs, e.job_id);
                assert(record_index(recs, e.job_id) == k);
                assert(recs[k].job.wf());
                assert(recs[k].job.admitted_at is Some);
            }
            assert forall|j: int| 0 <= j < s.in_flight@.len() implies {
                let fid = #[trigger] s.in_flight@[j];
                &&& has_record(recs, fid)
                &&& (recs[record_index(recs, fid)].job.status == ScheduledJobStatus::Submitted
                    || recs[record_index(recs, fid)].job.status == ScheduledJobStatus::Running)
            } by {
                let fid = s.in_flight@[j];
                assert(inflight_ids(recs, recs.len() as int)[j] == fid);
            }
        }
        s
    }

    /// Remove the queue entry of a job id, if present. By well-formedness a
    /// job has at most one entry.
    fn remove_queue_entry(&mut self, job_id: ScheduledJobId)
        requires
            old(self).wf(),
        ensures
            final(self).store == old(self).store,
            final(self).in_flight == old(self).in_flight,
            final(self).workflows == old(self).workflows,
            final(self).config == old(self).config,
            final(self).next_job_id == old(self).next_job_id,
            final(self).next_workflow_id == old(self).next_workflow_id,
            ({
                let q = old(self).queue@;
                let e = QueueEntry {
                    job_id,
                    priority: old(self).store.spec_records()[record_index(
                        old(self).store.spec_records(),
                        job_id,
                    )].job.priority,
                    admitted_at: old(self).store.spec_records()[record_index(
                        old(self).store.spec_records(),
                        job_id,
                    )].job.admitted_at->0,
                };
                &&& (q.contains(e) ==> final(self).queue@ =~= q.remove(
                    spec_entry_position(q, job_id),
                ))
                &&& ((forall|j: int| 0 <= j < q.len() ==> #[trigger] q[j].job_id != job_id)
                    ==> final(self).queue@ =~= q)
            }),
            forall|j: int| 0 <= j < final(self).queue@.len()
                ==> #[trigger] final(self).queue@[j].job_id != job_id,
            forall|j: int| 0 <= j < final(self).queue@.len()
                ==> old(self).queue@.contains(#[trigger] final(self).queue@[j]),
            forall|j1: int, j2: int|
                0 <= j1 < final(self).queue@.len() && 0 <= j2 < final(self).queue@.len()
                && j1 != j2 ==> #[trigger] final(self).queue@[j1].job_id
                    != #[trigger] final(self).queue@[j2].job_id,
    {
        let n = self.queue.len();
        let mut idx: usize = 0;
        while idx < n
            invariant
                0 <= idx <= n,
                n == self.queue@.len(),
                *self == *old(self),
                forall|j: int| 0 <= j < idx ==> #[trigger] self.queue@[j].job_id != job_id,
            decreases n - idx,
        {
            if self.queue.entries[idx].job_id == job_id {
                proof {
                    assert forall|j: int|
                        0 <= j < old(self).queue@.len()
                        && #[trigger] old(self).queue@[j].job_id == job_id
                        implies j == idx as int by {}
                    assert(spec_entry_position(old(self).queue@, job_id) == idx as int);
                    assert(old(self).queue@.contains(old(self).queue@[idx as int]));
                    let recs = old(self).store.spec_records();
                    crate::persistence::lemma_record_index(recs, job_id);
                }
                self.queue.entries.remove(idx);
                proof {
                    let olds = old(self).queue@;
                    assert forall|j: int| 0 <= j < self.queue@.len()
                        implies (#[trigger] self.queue@[j].job_id != job_id
                            && olds.contains(self.queue@[j])) by {
                        let m: int = if j < idx as int { j } else { j + 1 };
                        assert(self.queue@[j] == olds[m]);
                    }
                    assert forall|j1: int, j2: int|
                        0 <= j1 < self.queue@.len() && 0 <= j2 < self.queue@.len() && j1 != j2
                        implies #[trigger] self.queue@[j1].job_id
                            != #[trigger] self.queue@[j2].job_id by {
                        let m1: int = if j1 < idx as int { j1 } else { j1 + 1 };
                        let m2: int = if j2 < idx as int { j2 } else { j2 + 1 };
                        assert(self.queue@[j1] == olds[m1]);
                        assert(self.queue@[j2] == olds[m2]);
                    }
                }
                return;
            }
            idx = idx + 1;
        }
        proof {
            assert forall|j: int| 0 <= j < self.queue@.len()
                implies old(self).queue@.contains(#[trigger] self.queue@[j]) by {
                assert(self.queue@[j] == old(self).queue@[j]);
            }
        }
    }
}

} // verus!
