//! Mapping of the external batch manager's native job states onto the
//! scheduler's state machine.
//!
//! The batch manager (a SLURM-style cluster scheduler) is reached by the
//! surrounding application through three opaque operations: submit, poll by
//! external handle, cancel by external handle. Only the outcomes matter here:
//! this module holds the pure decisions, so the code that talks to the
//! external system carries no logic of its own.

use vstd::prelude::*;

verus! {

/// A native state code of the external batch manager.
#[derive(Clone, Copy, Debug, PartialEq, Eq, Structural)]
pub enum SlurmJobState {
    /// PD: waiting in the external queue.
    Pending,
    /// CF: nodes are being prepared.
    Configuring,
    /// R: running.
    Running,
    /// CG: completing.
    Completing,
    /// CD: completed successfully.
    Completed,
    /// F: failed.
    Failed,
    /// TO: ran out of its time limit.
    Timeout,
    /// NF: a node failed.
    NodeFail,
    /// OOM: ran out of memory.
    OutOfMemory,
    /// CA: cancelled.
    Cancelled,
}

/// What a poll of the external system reports, mapped onto the scheduler's
/// states. An unrecognized or transient answer is `Unknown` and is treated as
/// "no change", to be polled again later, never as a job failure.
#[derive(Clone, Copy, Debug, PartialEq, Eq, Structural)]
pub enum ExternalState {
    /// Accepted by the external system, not yet running.
    Submitted,
    /// Actively executing.
    Running,
    /// Finished successfully; carries an opaque result handle.
    Completed(u64),
    /// Failed externally.
    Failed,
    /// Cancelled externally.
    Cancelled,
    /// Transient error or unrecognized state: no change.
    Unknown,
}

/// What `map_slurm_state` returns for each native state.
pub open spec fn spec_map_slurm_state(s: SlurmJobState, result: u64) -> ExternalState {
    match s {
        SlurmJobState::Pending => ExternalState::Submitted,
        SlurmJobState::Configuring => ExternalState::Submitted,
        SlurmJobState::Running => ExternalState::Running,
        SlurmJobState::Completing => ExternalState::Running,
        SlurmJobState::Completed => ExternalState::Completed(result),
        SlurmJobState::Failed => ExternalState::Failed,
        SlurmJobState::Timeout => ExternalState::Failed,
        SlurmJobState::NodeFail => ExternalState::Failed,
        SlurmJobState::OutOfMemory => ExternalState::Failed,
        SlurmJobState::Cancelled => ExternalState::Cancelled,
    }
}

/// Map a native batch-manager state onto the scheduler's view of an external
/// job. `result` is the opaque result handle to attach when the native state
/// reports success.
pub fn map_slurm_state(s: SlurmJobState, result: u64) -> (r: ExternalState)
    ensures
        r == spec_map_slurm_state(s, result),
{
    match s {
        SlurmJobState::Pending => ExternalState::Submitted,
        SlurmJobState::Configuring => ExternalState::Submitted,
        SlurmJobState::Running => ExternalState::Running,
        SlurmJobState::Completing => ExternalState::Running,
        SlurmJobState::Completed => ExternalState::Completed(result),
        SlurmJobState::Failed => ExternalState::Failed,
        SlurmJobState::Timeout => ExternalState::Failed,
        SlurmJobState::NodeFail => ExternalState::Failed,
        SlurmJobState::OutOfMemory => ExternalState::Failed,
        SlurmJobState::Cancelled => ExternalState::Cancelled,
    }
}

/// Outcome of one external submission attempt, as observed by the caller
/// that performed it. A timeout counts as `Rejected`: transient, retried.
#[derive(Clone, Copy, Debug, PartialEq, Eq, Structural)]
pub enum SubmitOutcome {
    /// The external system accepted the work under this handle.
    Accepted(u64),
    /// The external system was unreachable, rejected the request, or timed
    /// out. Transient: subject to the retry policy.
    Rejected,
}

} // verus!
