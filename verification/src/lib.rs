//! Core of an HPC job-scheduling library: a job model with a checked status
//! state machine, workflow dependency graphs with atomic cycle rejection, a
//! stable priority queue, resource matching between job requirements and
//! backend descriptors, a durable state store model, and the scheduler's
//! decision logic for admission, retry, polling and recovery.

#![verifier::loop_isolation(false)]

pub mod error;
pub mod job;
pub mod matcher;
pub mod persistence;
pub mod problems;
pub mod qaoa;
pub mod queue;
pub mod scheduler;
pub mod slurm;
pub mod vqe;
pub mod workflow;

pub use error::{SchedError, SchedResult};
pub use problems::{Pauli, PauliHamiltonian, PauliTerm, h2_hamiltonian, h2_hamiltonian_4q, lih_hamiltonian};
pub use scheduler::{CancelDisposition, PollDisposition, Scheduler, SchedulerConfig, SubmitDisposition};
pub use vqe::VqeRunner;
pub use persistence::{MemStore, StateStore, StoredJob};
pub use slurm::{ExternalState, SlurmJobState, SubmitOutcome};
pub use workflow::{Workflow, WorkflowId, WorkflowNode, WorkflowStatus};
pub use matcher::{BackendDescriptor, MatchResult, ResourceMatcher};
pub use queue::{PriorityQueue, QueueEntry};
pub use job::{
    CircuitSpec, FailureReason, Priority, ResourceRequirements, ScheduledJob, ScheduledJobId,
    ScheduledJobStatus, TopologyClass, TopologyPreference,
};
