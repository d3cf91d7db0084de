//! Job model: immutable identity plus a mutable status record for a single
//! schedulable unit.
//!
//! Status changes go only through the named transition operations; each fails
//! with `IllegalTransition` when the current status does not permit it, so a
//! job's status is monotonic through the state machine
//! `Pending -> Queued -> Submitted -> Running -> {Completed | Failed | Cancelled}`.

use vstd::prelude::*;

use crate::error::SchedError;
use crate::error::SchedResult;

verus! {

/// Process-unique identifier of a scheduled job, stable across restarts.
pub type ScheduledJobId = u64;

/// Priority of a job: an ordered, closed enumeration. Higher priorities are
/// dequeued first.
#[derive(Clone, Copy, Debug, PartialEq, Eq, Structural)]
pub enum Priority {
    Low,
    Normal,
    High,
    Critical,
}

impl Priority {
    /// Numeric rank of the priority; a higher rank is served first.
    pub open spec fn spec_rank(self) -> int {
        match self {
            Priority::Low => 0,
            Priority::Normal => 1,
            Priority::High => 2,
            Priority::Critical => 3,
        }
    }

    /// Numeric rank of the priority; a higher rank is served first.
    pub fn rank(&self) -> (r: u8)
        ensures
            r as int == self.spec_rank(),
    {
        match self {
            Priority::Low => 0,
            Priority::Normal => 1,
            Priority::High => 2,
            Priority::Critical => 3,
        }
    }
}

/// Topology class a backend advertises.
#[derive(Clone, Copy, Debug, PartialEq, Eq, Structural)]
pub enum TopologyClass {
    /// Qubits connected in a line.
    Linear,
    /// Qubits connected in a two-dimensional grid.
    Grid,
    /// Every qubit connected to every other.
    FullyConnected,
}

/// Topology a job requires. A backend of a richer class satisfies a
/// preference for a poorer one (a grid or fully connected device embeds a
/// line), while `Any` is satisfied by every class.
#[derive(Clone, Copy, Debug, PartialEq, Eq, Structural)]
pub enum TopologyPreference {
    Any,
    Linear,
    Grid,
    FullyConnected,
}

impl TopologyPreference {
    /// Whether a backend of class `class` satisfies this preference.
    pub open spec fn spec_satisfied_by(self, class: TopologyClass) -> bool {
        match self {
            TopologyPreference::Any => true,
            TopologyPreference::Linear => true,
            TopologyPreference::Grid => class == TopologyClass::Grid
                || class == TopologyClass::FullyConnected,
            TopologyPreference::FullyConnected => class == TopologyClass::FullyConnected,
        }
    }

    /// Whether a backend of class `class` matches this preference exactly.
    pub open spec fn spec_exact_match(self, class: TopologyClass) -> bool {
        match self {
            TopologyPreference::Any => false,
            TopologyPreference::Linear => class == TopologyClass::Linear,
            TopologyPreference::Grid => class == TopologyClass::Grid,
            TopologyPreference::FullyConnected => class == TopologyClass::FullyConnected,
        }
    }

    /// Whether a backend of class `class` satisfies this preference.
    pub fn satisfied_by(&self, class: TopologyClass) -> (r: bool)
        ensures
            r == self.spec_satisfied_by(class),
    {
        match self {
            TopologyPreference::Any => true,
            TopologyPreference::Linear => true,
            TopologyPreference::Grid => matches!(class, TopologyClass::Grid)
                || matches!(class, TopologyClass::FullyConnected),
            TopologyPreference::FullyConnected => matches!(class, TopologyClass::FullyConnected),
        }
    }

    /// Whether a backend of class `class` matches this preference exactly.
    pub fn exact_match(&self, class: TopologyClass) -> (r: bool)
        ensures
            r == self.spec_exact_match(class),
    {
        match self {
            TopologyPreference::Any => false,
            TopologyPreference::Linear => matches!(class, TopologyClass::Linear),
            TopologyPreference::Grid => matches!(class, TopologyClass::Grid),
            TopologyPreference::FullyConnected => matches!(class, TopologyClass::FullyConnected),
        }
    }
}

/// Resource requirements of a job: a lower bound on capacity, a topology
/// preference, a shot count and an optional pin to a named backend.
#[derive(Clone, Copy, Debug, PartialEq, Eq, Structural)]
pub struct ResourceRequirements {
    /// Minimum number of qubits the backend must offer. Must be positive.
    pub min_qubits: u64,
    /// Topology the backend must satisfy.
    pub topology: TopologyPreference,
    /// Number of measurement shots requested. Must be positive.
    pub shots: u64,
    /// If set, only the backend with this id is acceptable.
    pub backend_pin: Option<u64>,
}

impl ResourceRequirements {
    /// Non-degenerate requirements: a positive capacity bound and a positive
    /// shot count.
    pub open spec fn spec_valid(self) -> bool {
        self.min_qubits > 0 && self.shots > 0
    }

    /// Non-degenerate requirements: a positive capacity bound and a positive
    /// shot count.
    pub fn valid(&self) -> (r: bool)
        ensures
            r == self.spec_valid(),
    {
        self.min_qubits > 0 && self.shots > 0
    }
}

/// Reference to the workload a job carries. The payload itself is opaque to
/// the scheduler: only the handle is stored, never inspected.
#[derive(Clone, Copy, Debug, PartialEq, Eq, Structural)]
pub struct CircuitSpec {
    /// Opaque handle to the circuit payload.
    pub handle: u64,
}

/// Why a job ended `Failed`. Retry exhaustion is recorded as such, not as the
/// last transient error verbatim.
#[derive(Clone, Copy, Debug, PartialEq, Eq, Structural)]
pub enum FailureReason {
    /// Submission failed `max_retries` times.
    RetriesExhausted,
    /// The external batch manager reported the job failed.
    ExternalFailure,
}

/// Status of a job in the scheduler's state machine.
#[derive(Clone, Copy, Debug, PartialEq, Eq, Structural)]
pub enum ScheduledJobStatus {
    /// Initial: dependencies unresolved or not yet admitted.
    Pending,
    /// Admitted into the priority queue.
    Queued,
    /// Handed to the external batch manager; an external handle is recorded.
    Submitted,
    /// The external system reports active execution.
    Running,
    /// Terminal: finished successfully; a result handle is recorded.
    Completed,
    /// Terminal: failed; a failure reason is recorded.
    Failed,
    /// Terminal: cancelled.
    Cancelled,
}

impl ScheduledJobStatus {
    /// Terminal statuses permit no further transition.
    pub open spec fn spec_is_terminal(self) -> bool {
        self == ScheduledJobStatus::Completed
            || self == ScheduledJobStatus::Failed
            || self == ScheduledJobStatus::Cancelled
    }

    /// Terminal statuses permit no further transition.
    pub fn is_terminal(&self) -> (r: bool)
        ensures
            r == self.spec_is_terminal(),
    {
        matches!(self, ScheduledJobStatus::Completed)
            || matches!(self, ScheduledJobStatus::Failed)
            || matches!(self, ScheduledJobStatus::Cancelled)
    }
}

/// One schedulable unit of work.
#[derive(Debug)]
pub struct ScheduledJob {
    /// Opaque, process-unique id.
    pub id: ScheduledJobId,
    /// Human-readable name.
    pub name: String,
    /// Priority used by the queue ordering.
    pub priority: Priority,
    /// Declared resource needs.
    pub requirements: ResourceRequirements,
    /// Opaque workload payload reference.
    pub circuit: CircuitSpec,
    /// Current status in the state machine.
    pub status: ScheduledJobStatus,
    /// Backend the job was matched to, once matched.
    pub backend: Option<u64>,
    /// Handle of the external batch-manager submission, once submitted.
    pub external_handle: Option<u64>,
    /// Number of failed submission attempts so far.
    pub retries: u64,
    /// Admission timestamp, set when the job is first queued and kept across
    /// re-queues, so an attempted job is never penalized in queue ordering.
    pub admitted_at: Option<u64>,
    /// Creation timestamp.
    pub created_at: u64,
    /// Timestamp of the last status change.
    pub updated_at: u64,
    /// Result handle, recorded on completion.
    pub result: Option<u64>,
    /// Failure reason, recorded on failure.
    pub failure: Option<FailureReason>,
}

impl ScheduledJob {
    /// Well-formedness: the requirements are non-degenerate and the record
    /// carries what its status promises.
    pub open spec fn wf(self) -> bool {
        &&& self.requirements.spec_valid()
        &&& (self.status == ScheduledJobStatus::Submitted
            || self.status == ScheduledJobStatus::Running) ==> {
            &&& self.external_handle is Some
            &&& self.backend is Some
        }
        &&& self.status == ScheduledJobStatus::Completed ==> self.result is Some
        &&& self.status == ScheduledJobStatus::Failed ==> self.failure is Some
        &&& (self.status == ScheduledJobStatus::Queued
            || self.status == ScheduledJobStatus::Submitted
            || self.status == ScheduledJobStatus::Running) ==> self.admitted_at is Some
    }

    /// Create a job in status `Pending`. Rejects degenerate resource
    /// requirements with `InvalidJobSpec`.
    pub fn new(
        id: ScheduledJobId,
        name: String,
        priority: Priority,
        requirements: ResourceRequirements,
        circuit: CircuitSpec,
        now: u64,
    ) -> (r: SchedResult<ScheduledJob>)
        ensures
            requirements.spec_valid() <==> r is Ok,
            r matches Ok(job) ==> {
                &&& job.wf()
                &&& job.id == id
                &&& job.name == name
                &&& job.priority == priority
                &&& job.requirements == requirements
                &&& job.circuit == circuit
                &&& job.status == ScheduledJobStatus::Pending
                &&& job.backend is None
                &&& job.external_handle is None
                &&& job.retries == 0
                &&& job.admitted_at is None
                &&& job.created_at == now
                &&& job.updated_at == now
                &&& job.result is None
                &&& job.failure is None
            },
            r matches Err(e) ==> e == SchedError::InvalidJobSpec,
    {
        if !requirements.valid() {
            return Err(SchedError::InvalidJobSpec);
        }
        Ok(ScheduledJob {
            id,
            name,
            priority,
            requirements,
            circuit,
            status: ScheduledJobStatus::Pending,
            backend: None,
            external_handle: None,
            retries: 0,
            admitted_at: None,
            created_at: now,
            updated_at: now,
            result: None,
            failure: None,
        })
    }

    /// Admit the job into the queue: `Pending -> Queued`.
    pub fn mark_queued(&mut self, now: u64) -> (r: SchedResult<()>)
        ensures
            r is Ok <==> old(self).status == ScheduledJobStatus::Pending,
            r is Ok ==> *final(self) == (ScheduledJob {
                status: ScheduledJobStatus::Queued,
                admitted_at: Some(now),
                updated_at: now,
                ..*old(self)
            }),
            r is Err ==> *final(self) == *old(self) && r == Err::<(), SchedError>(
                SchedError::IllegalTransition,
            ),
    {
        if matches!(self.status, ScheduledJobStatus::Pending) {
            self.status = ScheduledJobStatus::Queued;
            self.admitted_at = Some(now);
            self.updated_at = now;
            Ok(())
        } else {
            Err(SchedError::IllegalTransition)
        }
    }

    /// Record a successful external submission: `Queued -> Submitted`.
    pub fn mark_submitted(&mut self, backend: u64, handle: u64, now: u64) -> (r: SchedResult<()>)
        ensures
            r is Ok <==> old(self).status == ScheduledJobStatus::Queued,
            r is Ok ==> *final(self) == (ScheduledJob {
                status: ScheduledJobStatus::Submitted,
                backend: Some(backend),
                external_handle: Some(handle),
                updated_at: now,
                ..*old(self)
            }),
            r is Err ==> *final(self) == *old(self) && r == Err::<(), SchedError>(
                SchedError::IllegalTransition,
            ),
    {
        if matches!(self.status, ScheduledJobStatus::Queued) {
            self.status = ScheduledJobStatus::Submitted;
            self.backend = Some(backend);
            self.external_handle = Some(handle);
            self.updated_at = now;
            Ok(())
        } else {
            Err(SchedError::IllegalTransition)
        }
    }

    /// The external system reports execution: `Submitted -> Running`.
    pub fn mark_running(&mut self, now: u64) -> (r: SchedResult<()>)
        ensures
            r is Ok <==> old(self).status == ScheduledJobStatus::Submitted,
            r is Ok ==> *final(self) == (ScheduledJob {
                status: ScheduledJobStatus::Running,
                updated_at: now,
                ..*old(self)
            }),
            r is Err ==> *final(self) == *old(self) && r == Err::<(), SchedError>(
                SchedError::IllegalTransition,
            ),
    {
        if matches!(self.status, ScheduledJobStatus::Submitted) {
            self.status = ScheduledJobStatus::Running;
            self.updated_at = now;
            Ok(())
        } else {
            Err(SchedError::IllegalTransition)
        }
    }

    /// Record successful completion: `Submitted | Running -> Completed`.
    pub fn mark_completed(&mut self, result: u64, now: u64) -> (r: SchedResult<()>)
        ensures
            r is Ok <==> (old(self).status == ScheduledJobStatus::Submitted
                || old(self).status == ScheduledJobStatus::Running),
            r is Ok ==> *final(self) == (ScheduledJob {
                status: ScheduledJobStatus::Completed,
                result: Some(result),
                updated_at: now,
                ..*old(self)
            }),
            r is Err ==> *final(self) == *old(self) && r == Err::<(), SchedError>(
                SchedError::IllegalTransition,
            ),
    {
        if matches!(self.status, ScheduledJobStatus::Submitted)
            || matches!(self.status, ScheduledJobStatus::Running)
        {
            self.status = ScheduledJobStatus::Completed;
            self.result = Some(result);
            self.updated_at = now;
            Ok(())
        } else {
            Err(SchedError::IllegalTransition)
        }
    }

    /// Record failure: `Queued | Submitted | Running -> Failed`. Failure from
    /// `Queued` records retry exhaustion; a job never ends `Failed` while its
    /// dependencies are still unresolved.
    pub fn mark_failed(&mut self, reason: FailureReason, now: u64) -> (r: SchedResult<()>)
        ensures
            r is Ok <==> (old(self).status == ScheduledJobStatus::Queued
                || old(self).status == ScheduledJobStatus::Submitted
                || old(self).status == ScheduledJobStatus::Running),
            r is Ok ==> *final(self) == (ScheduledJob {
                status: ScheduledJobStatus::Failed,
                failure: Some(reason),
                updated_at: now,
                ..*old(self)
            }),
            r is Err ==> *final(self) == *old(self) && r == Err::<(), SchedError>(
                SchedError::IllegalTransition,
            ),
    {
        if matches!(self.status, ScheduledJobStatus::Queued)
            || matches!(self.status, ScheduledJobStatus::Submitted)
            || matches!(self.status, ScheduledJobStatus::Running)
        {
            self.status = ScheduledJobStatus::Failed;
            self.failure = Some(reason);
            self.updated_at = now;
            Ok(())
        } else {
            Err(SchedError::IllegalTransition)
        }
    }

    /// Record cancellation as a strict transition: fails on a terminal job.
    /// The idempotent scheduler-level operation is [`ScheduledJob::cancel`].
    pub fn mark_cancelled(&mut self, now: u64) -> (r: SchedResult<()>)
        ensures
            r is Ok <==> !old(self).status.spec_is_terminal(),
            r is Ok ==> *final(self) == (ScheduledJob {
                status: ScheduledJobStatus::Cancelled,
                updated_at: now,
                ..*old(self)
            }),
            r is Err ==> *final(self) == *old(self) && r == Err::<(), SchedError>(
                SchedError::IllegalTransition,
            ),
    {
        if !self.status.is_terminal() {
            self.status = ScheduledJobStatus::Cancelled;
            self.updated_at = now;
            Ok(())
        } else {
            Err(SchedError::IllegalTransition)
        }
    }

    /// What [`ScheduledJob::cancel`] leaves behind: a terminal job is kept
    /// unchanged, any other is moved to `Cancelled`.
    pub open spec fn spec_cancel(job: ScheduledJob, now: u64) -> ScheduledJob {
        if job.status.spec_is_terminal() {
            job
        } else {
            ScheduledJob {
                status: ScheduledJobStatus::Cancelled,
                updated_at: now,
                ..job
            }
        }
    }

    /// Cancel the job idempotently: always succeeds; a job already terminal
    /// (`Cancelled`, `Completed` or `Failed`) is left unchanged.
    pub fn cancel(&mut self, now: u64)
        ensures
            *final(self) == ScheduledJob::spec_cancel(*old(self), now),
            old(self).status.spec_is_terminal() ==> *final(self) == *old(self),
            final(self).status.spec_is_terminal(),
    {
        if !self.status.is_terminal() {
            self.status = ScheduledJobStatus::Cancelled;
            self.updated_at = now;
        }
    }
}

impl Clone for ScheduledJob {
    /// An exact copy of the record.
    fn clone(&self) -> (r: Self)
        ensures
            r == *self,
    {
        ScheduledJob {
            id: self.id,
            name: self.name.clone(),
            priority: self.priority,
            requirements: self.requirements,
            circuit: self.circuit,
            status: self.status,
            backend: self.backend,
            external_handle: self.external_handle,
            retries: self.retries,
            admitted_at: self.admitted_at,
            created_at: self.created_at,
            updated_at: self.updated_at,
            result: self.result,
            failure: self.failure,
        }
    }
}

/// Law: cancellation is idempotent. Cancelling what a cancellation left
/// behind changes nothing, whatever the timestamps.
pub proof fn lemma_cancel_idempotent(job: ScheduledJob, now1: u64, now2: u64)
    ensures
        ScheduledJob::spec_cancel(ScheduledJob::spec_cancel(job, now1), now2)
            == ScheduledJob::spec_cancel(job, now1),
{
}

} // verus!
