//! Error taxonomy of the scheduler.
//!
//! Admission-time errors (`InvalidJobSpec`, `CyclicDependency`,
//! `UnknownDependency`, `DuplicateJob`) are surfaced synchronously and never
//! retried. `IllegalTransition` marks a status change the state machine does
//! not permit. Submission failures are transient and retried up to a
//! configured limit; `RetriesExhausted` records that the limit was reached.

use vstd::prelude::*;

verus! {

/// An error of the scheduling core.
#[derive(Clone, Copy, Debug, PartialEq, Eq, Structural)]
pub enum SchedError {
    /// The job's resource requirements are degenerate or its fields invalid.
    InvalidJobSpec,
    /// Adding the dependency edge would create a cycle in the workflow graph.
    CyclicDependency,
    /// A referenced dependency id is not part of the workflow.
    UnknownDependency,
    /// A job with the same id is already part of the workflow.
    DuplicateJob,
    /// The current status does not permit the requested transition.
    IllegalTransition,
    /// The id refers to no known job.
    UnknownJob,
    /// The id refers to no known workflow.
    UnknownWorkflow,
    /// A submission failed `max_retries` times; the job was marked failed.
    RetriesExhausted,
}

impl SchedError {
    /// A short human-readable description of the error.
    pub fn describe(&self) -> (r: &'static str)
        ensures
            r@ =~= self.spec_describe(),
    {
        match self {
            SchedError::InvalidJobSpec => "invalid job specification",
            SchedError::CyclicDependency => "dependency edge would create a cycle",
            SchedError::UnknownDependency => "unknown dependency id",
            SchedError::DuplicateJob => "duplicate job id",
            SchedError::IllegalTransition => "illegal status transition",
            SchedError::UnknownJob => "unknown job id",
            SchedError::UnknownWorkflow => "unknown workflow id",
            SchedError::RetriesExhausted => "retry limit exhausted",
        }
    }

    /// What `describe` returns for each variant.
    pub open spec fn spec_describe(self) -> Seq<char> {
        match self {
            SchedError::InvalidJobSpec => "invalid job specification"@,
            SchedError::CyclicDependency => "dependency edge would create a cycle"@,
            SchedError::UnknownDependency => "unknown dependency id"@,
            SchedError::DuplicateJob => "duplicate job id"@,
            SchedError::IllegalTransition => "illegal status transition"@,
            SchedError::UnknownJob => "unknown job id"@,
            SchedError::UnknownWorkflow => "unknown workflow id"@,
            SchedError::RetriesExhausted => "retry limit exhausted"@,
        }
    }
}

/// Result type of the scheduling core.
pub type SchedResult<T> = Result<T, SchedError>;

} // verus!
