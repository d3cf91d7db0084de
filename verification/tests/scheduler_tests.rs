use hiq::job::FailureReason;
use hiq::matcher::{BackendDescriptor, ResourceMatcher};
use hiq::persistence::{MemStore, StateStore};
use hiq::queue::{PriorityQueue, QueueEntry};
use hiq::scheduler::{CancelDisposition, Scheduler, SchedulerConfig, SubmitDisposition};
use hiq::slurm::{map_slurm_state, ExternalState, SlurmJobState, SubmitOutcome};
use hiq::workflow::{Workflow, WorkflowStatus};
use hiq::{
    CircuitSpec, PollDisposition, Priority, ResourceRequirements, ScheduledJobStatus, SchedError,
    TopologyClass, TopologyPreference,
};

fn reqs(min_qubits: u64) -> ResourceRequirements {
    ResourceRequirements {
        min_qubits,
        topology: TopologyPreference::Any,
        shots: 100,
        backend_pin: None,
    }
}

fn backend(id: u64, capacity: u64) -> BackendDescriptor {
    BackendDescriptor {
        id,
        capacity,
        topology: TopologyClass::Linear,
        available: true,
    }
}

#[test]
fn test_queue_priority_descending_then_admission_ascending() {
    // Dequeue order is priority-descending, then admission-time-ascending.
    let mut q = PriorityQueue::new();
    q.push(QueueEntry { job_id: 1, priority: Priority::Low, admitted_at: 10 });
    q.push(QueueEntry { job_id: 2, priority: Priority::High, admitted_at: 30 });
    q.push(QueueEntry { job_id: 3, priority: Priority::High, admitted_at: 20 });
    q.push(QueueEntry { job_id: 4, priority: Priority::Critical, admitted_at: 40 });
    q.push(QueueEntry { job_id: 5, priority: Priority::Normal, admitted_at: 5 });

    assert_eq!(q.pop().unwrap().job_id, 4);
    assert_eq!(q.pop().unwrap().job_id, 3);
    assert_eq!(q.pop().unwrap().job_id, 2);
    assert_eq!(q.pop().unwrap().job_id, 5);
    assert_eq!(q.pop().unwrap().job_id, 1);
    assert!(q.pop().is_none());
}

#[test]
fn test_queue_full_tie_keeps_push_order() {
    let mut q = PriorityQueue::new();
    q.push(QueueEntry { job_id: 7, priority: Priority::Normal, admitted_at: 10 });
    q.push(QueueEntry { job_id: 8, priority: Priority::Normal, admitted_at: 10 });
    assert_eq!(q.pop().unwrap().job_id, 7);
    assert_eq!(q.pop().unwrap().job_id, 8);
}

#[test]
fn test_queue_repush_keeps_original_admission() {
    let mut q = PriorityQueue::new();
    q.push(QueueEntry { job_id: 1, priority: Priority::Normal, admitted_at: 10 });
    q.push(QueueEntry { job_id: 2, priority: Priority::Normal, admitted_at: 20 });
    let first = q.pop().unwrap();
    assert_eq!(first.job_id, 1);
    // Re-push after a failed attempt, original admission timestamp kept:
    // it is not penalized and leaves before the later admission.
    q.push(first);
    assert_eq!(q.pop().unwrap().job_id, 1);
    assert_eq!(q.pop().unwrap().job_id, 2);
}

#[test]
fn test_workflow_status_completed_iff_all_completed() {
    let mut w = Workflow::new(1, true);
    w.add_job(1, &vec![]).unwrap();
    w.add_job(2, &vec![1]).unwrap();
    assert_eq!(w.status(), WorkflowStatus::Pending);
    w.set_job_status(1, ScheduledJobStatus::Completed).unwrap();
    assert_eq!(w.status(), WorkflowStatus::Pending);
    w.set_job_status(2, ScheduledJobStatus::Completed).unwrap();
    assert_eq!(w.status(), WorkflowStatus::Completed);
}

#[test]
fn test_workflow_status_failed_iff_any_failed_and_propagation() {
    let mut w = Workflow::new(1, true);
    w.add_job(1, &vec![]).unwrap();
    w.add_job(2, &vec![]).unwrap();
    w.set_job_status(1, ScheduledJobStatus::Failed).unwrap();
    assert_eq!(w.status(), WorkflowStatus::Failed);

    // With propagation off the workflow is never Failed.
    let mut w2 = Workflow::new(2, false);
    w2.add_job(1, &vec![]).unwrap();
    w2.add_job(2, &vec![]).unwrap();
    w2.set_job_status(1, ScheduledJobStatus::Failed).unwrap();
    assert_ne!(w2.status(), WorkflowStatus::Failed);
    assert_eq!(w2.status(), WorkflowStatus::Pending);
}

#[test]
fn test_workflow_empty_is_completed() {
    let w = Workflow::new(1, true);
    assert_eq!(w.status(), WorkflowStatus::Completed);
}

#[test]
fn test_cycle_rejected_atomically() {
    let mut w = Workflow::new(1, true);
    w.add_job(1, &vec![]).unwrap();
    w.add_job(2, &vec![1]).unwrap();
    w.add_job(3, &vec![2]).unwrap();
    // 1 -> 2 -> 3 so making 1 depend on 3 closes a cycle.
    let before: Vec<usize> = w.nodes.iter().map(|n| n.deps.len()).collect();
    let r = w.add_dependency(3, 1);
    assert_eq!(r, Err(SchedError::CyclicDependency));
    let after: Vec<usize> = w.nodes.iter().map(|n| n.deps.len()).collect();
    assert_eq!(before, after);
    assert_eq!(w.len(), 3);
    // A self-edge is a cycle too.
    assert_eq!(w.add_dependency(2, 2), Err(SchedError::CyclicDependency));
    // A legal edge is accepted.
    assert_eq!(w.add_dependency(1, 3), Ok(()));
}

#[test]
fn test_workflow_admission_errors() {
    let mut w = Workflow::new(1, true);
    w.add_job(1, &vec![]).unwrap();
    assert_eq!(w.add_job(1, &vec![]), Err(SchedError::DuplicateJob));
    assert_eq!(w.add_job(2, &vec![9]), Err(SchedError::UnknownDependency));
    assert_eq!(w.add_job(2, &vec![2]), Err(SchedError::CyclicDependency));
    assert_eq!(w.add_dependency(1, 9), Err(SchedError::UnknownDependency));
    assert_eq!(w.set_job_status(9, ScheduledJobStatus::Running), Err(SchedError::UnknownJob));
}

#[test]
fn test_matcher_filter_is_sound() {
    // The chosen backend satisfies capacity, topology and availability.
    let req = ResourceRequirements {
        min_qubits: 3,
        topology: TopologyPreference::Grid,
        shots: 10,
        backend_pin: None,
    };
    let descriptors = vec![
        BackendDescriptor { id: 1, capacity: 10, topology: TopologyClass::Linear, available: true },
        BackendDescriptor { id: 2, capacity: 2, topology: TopologyClass::Grid, available: true },
        BackendDescriptor { id: 3, capacity: 5, topology: TopologyClass::Grid, available: false },
        BackendDescriptor { id: 4, capacity: 8, topology: TopologyClass::FullyConnected, available: true },
        BackendDescriptor { id: 5, capacity: 4, topology: TopologyClass::Grid, available: true },
    ];
    let m = ResourceMatcher::match_job(&req, &descriptors).unwrap();
    let chosen = descriptors.iter().find(|d| d.id == m.backend_id).unwrap();
    assert!(chosen.available);
    assert!(chosen.capacity >= req.min_qubits);
    // Exact topology preferred, then tightest fit: backend 5 (Grid, waste 1).
    assert_eq!(m.backend_id, 5);
    assert_eq!(m.wasted_capacity, 1);
    assert!(m.exact_topology);
}

#[test]
fn test_matcher_tie_broken_by_backend_id() {
    let req = reqs(2);
    let descriptors = vec![backend(9, 4), backend(3, 4), backend(5, 4)];
    let m = ResourceMatcher::match_job(&req, &descriptors).unwrap();
    assert_eq!(m.backend_id, 3);
}

#[test]
fn test_matcher_no_match_is_none() {
    let req = reqs(100);
    let descriptors = vec![backend(1, 4)];
    assert!(ResourceMatcher::match_job(&req, &descriptors).is_none());
    assert!(ResourceMatcher::match_job(&req, &vec![]).is_none());
}

#[test]
fn test_matcher_honours_pin() {
    let mut req = reqs(2);
    req.backend_pin = Some(7);
    let descriptors = vec![backend(1, 4), backend(7, 16)];
    let m = ResourceMatcher::match_job(&req, &descriptors).unwrap();
    assert_eq!(m.backend_id, 7);
}

#[test]
fn test_store_put_get_versioned() {
    let mut s = Scheduler::new(SchedulerConfig::standard());
    let id = s.admit_job("a".to_string(), Priority::Normal, reqs(2), CircuitSpec { handle: 1 }, 10).unwrap();
    assert_eq!(s.store.version_of(id), Some(1));
    let job = s.store.get(id).unwrap();
    assert_eq!(job.status, ScheduledJobStatus::Queued);
    assert_eq!(job.name, "a");
    // Overwrite bumps the version atomically.
    let mut store = MemStore::new();
    store.put(job.clone());
    store.put(job.clone());
    assert_eq!(store.version_of(id), Some(2));
    assert!(store.delete(id));
    assert!(!store.delete(id));
    assert!(store.get(id).is_none());
}

#[test]
fn test_invalid_job_spec_rejected() {
    let mut s = Scheduler::new(SchedulerConfig::standard());
    let r = s.admit_job("bad".to_string(), Priority::Normal, reqs(0), CircuitSpec { handle: 1 }, 10);
    assert_eq!(r, Err(SchedError::InvalidJobSpec));
    let mut bad_shots = reqs(2);
    bad_shots.shots = 0;
    let r2 = s.admit_job("bad".to_string(), Priority::Normal, bad_shots, CircuitSpec { handle: 1 }, 10);
    assert_eq!(r2, Err(SchedError::InvalidJobSpec));
}

#[test]
fn test_high_priority_matched_first() {
    // J1 (High, needs 4) and J2 (Low, needs 2) against one backend of
    // capacity 4: J1 is matched and submitted first.
    let mut s = Scheduler::new(SchedulerConfig::standard());
    let j1 = s.admit_job("j1".to_string(), Priority::High, reqs(4), CircuitSpec { handle: 1 }, 10).unwrap();
    let j2 = s.admit_job("j2".to_string(), Priority::Low, reqs(2), CircuitSpec { handle: 2 }, 10).unwrap();
    let descriptors = vec![backend(1, 4)];
    let (entry, m) = s.pick_next(&descriptors).unwrap();
    assert_eq!(entry.job_id, j1);
    assert_eq!(m.backend_id, 1);
    let d = s.on_submit_outcome(entry, m.backend_id, SubmitOutcome::Accepted(500), 11);
    assert_eq!(d, SubmitDisposition::Submitted);
    assert_eq!(s.store.get(j1).unwrap().status, ScheduledJobStatus::Submitted);
    let (entry2, _) = s.pick_next(&descriptors).unwrap();
    assert_eq!(entry2.job_id, j2);
}

#[test]
fn test_no_match_leaves_job_queued() {
    let mut s = Scheduler::new(SchedulerConfig::standard());
    let id = s.admit_job("big".to_string(), Priority::Normal, reqs(64), CircuitSpec { handle: 1 }, 10).unwrap();
    let descriptors = vec![backend(1, 4)];
    assert!(s.pick_next(&descriptors).is_none());
    // Not an error: the job stays queued for the next tick.
    assert_eq!(s.store.get(id).unwrap().status, ScheduledJobStatus::Queued);
    assert_eq!(s.queue.len(), 1);
}

#[test]
fn test_retry_then_success_counts_failures() {
    // Submit fails twice, then succeeds on the third attempt: the job ends
    // Completed and the retry counter records exactly two failures.
    let mut s = Scheduler::new(SchedulerConfig::standard());
    let id = s.admit_job("flaky".to_string(), Priority::Normal, reqs(2), CircuitSpec { handle: 1 }, 10).unwrap();
    let descriptors = vec![backend(1, 4)];
    for _ in 0..2 {
        let (entry, m) = s.pick_next(&descriptors).unwrap();
        let d = s.on_submit_outcome(entry, m.backend_id, SubmitOutcome::Rejected, 11);
        assert_eq!(d, SubmitDisposition::Requeued);
    }
    let (entry, m) = s.pick_next(&descriptors).unwrap();
    // The original admission timestamp is kept across re-queues.
    assert_eq!(entry.admitted_at, 10);
    let d = s.on_submit_outcome(entry, m.backend_id, SubmitOutcome::Accepted(600), 12);
    assert_eq!(d, SubmitDisposition::Submitted);
    assert_eq!(s.on_poll(id, ExternalState::Completed(42), 13), PollDisposition::Completed);
    let job = s.store.get(id).unwrap();
    assert_eq!(job.status, ScheduledJobStatus::Completed);
    assert_eq!(job.retries, 2);
    assert_eq!(job.result, Some(42));
}

#[test]
fn test_retry_exhaustion_records_reason() {
    // Submit fails max_retries times: the job ends Failed with retry
    // exhaustion as the reason, not the last transient error.
    let config = SchedulerConfig { max_retries: 3, propagate_failures: true };
    let mut s = Scheduler::new(config);
    let id = s.admit_job("doomed".to_string(), Priority::Normal, reqs(2), CircuitSpec { handle: 1 }, 10).unwrap();
    let descriptors = vec![backend(1, 4)];
    for attempt in 0..3 {
        let (entry, m) = s.pick_next(&descriptors).unwrap();
        let d = s.on_submit_outcome(entry, m.backend_id, SubmitOutcome::Rejected, 11 + attempt);
        if attempt < 2 {
            assert_eq!(d, SubmitDisposition::Requeued);
        } else {
            assert_eq!(d, SubmitDisposition::FailedExhausted);
        }
    }
    let job = s.store.get(id).unwrap();
    assert_eq!(job.status, ScheduledJobStatus::Failed);
    assert_eq!(job.failure, Some(FailureReason::RetriesExhausted));
    assert_eq!(job.retries, 3);
    assert!(s.pick_next(&descriptors).is_none());
}

#[test]
fn test_failed_dependency_blocks_successor() {
    // Workflow {A -> B}: A fails, so B is never enqueued and the workflow
    // status becomes Failed.
    let mut s = Scheduler::new(SchedulerConfig::standard());
    let wid = s.admit_workflow(true);
    let a = s.add_workflow_job(wid, "a".to_string(), Priority::Normal, reqs(2), CircuitSpec { handle: 1 }, &vec![], 10).unwrap();
    let b = s.add_workflow_job(wid, "b".to_string(), Priority::Normal, reqs(2), CircuitSpec { handle: 2 }, &vec![a], 10).unwrap();
    let descriptors = vec![backend(1, 4)];
    let (entry, m) = s.pick_next(&descriptors).unwrap();
    assert_eq!(entry.job_id, a);
    s.on_submit_outcome(entry, m.backend_id, SubmitOutcome::Accepted(700), 11);
    assert_eq!(s.on_poll(a, ExternalState::Failed, 12), PollDisposition::Failed);
    s.sync_workflow(a).unwrap();
    // B is not ready and never enqueued.
    assert_eq!(s.ready_in_workflow(wid).unwrap(), Vec::<u64>::new());
    assert_eq!(s.store.get(b).unwrap().status, ScheduledJobStatus::Pending);
    assert_eq!(s.queue.len(), 0);
    assert_eq!(s.workflow_status(wid).unwrap(), WorkflowStatus::Failed);
}

#[test]
fn test_completion_releases_dependents() {
    let mut s = Scheduler::new(SchedulerConfig::standard());
    let wid = s.admit_workflow(true);
    let a = s.add_workflow_job(wid, "a".to_string(), Priority::Normal, reqs(2), CircuitSpec { handle: 1 }, &vec![], 10).unwrap();
    let b = s.add_workflow_job(wid, "b".to_string(), Priority::Normal, reqs(2), CircuitSpec { handle: 2 }, &vec![a], 10).unwrap();
    assert_eq!(s.store.get(b).unwrap().status, ScheduledJobStatus::Pending);
    let descriptors = vec![backend(1, 4)];
    let (entry, m) = s.pick_next(&descriptors).unwrap();
    s.on_submit_outcome(entry, m.backend_id, SubmitOutcome::Accepted(800), 11);
    assert_eq!(s.on_poll(a, ExternalState::Completed(1), 12), PollDisposition::Completed);
    s.sync_workflow(a).unwrap();
    let ready = s.ready_in_workflow(wid).unwrap();
    assert_eq!(ready, vec![b]);
    s.enqueue_job(b, 13).unwrap();
    assert_eq!(s.store.get(b).unwrap().status, ScheduledJobStatus::Queued);
    // The readiness scan does not offer an already queued job again.
    assert_eq!(s.ready_in_workflow(wid).unwrap(), Vec::<u64>::new());
    let (entry_b, _) = s.pick_next(&descriptors).unwrap();
    assert_eq!(entry_b.job_id, b);
}

#[test]
fn test_recovery_rebuilds_active_set() {
    // A restart rebuilds in-memory state equal to the persisted active set:
    // no job lost, none duplicated.
    let mut s = Scheduler::new(SchedulerConfig::standard());
    let queued = s.admit_job("q".to_string(), Priority::High, reqs(2), CircuitSpec { handle: 1 }, 10).unwrap();
    let submitted = s.admit_job("s".to_string(), Priority::Low, reqs(2), CircuitSpec { handle: 2 }, 11).unwrap();
    let done = s.admit_job("d".to_string(), Priority::Low, reqs(2), CircuitSpec { handle: 3 }, 12).unwrap();
    let descriptors = vec![backend(1, 4)];
    // Submit the High job, complete it; submit the first Low job.
    let (e1, m1) = s.pick_next(&descriptors).unwrap();
    assert_eq!(e1.job_id, queued);
    s.on_submit_outcome(e1, m1.backend_id, SubmitOutcome::Accepted(1), 13);
    s.on_poll(queued, ExternalState::Completed(9), 14);
    let (e2, m2) = s.pick_next(&descriptors).unwrap();
    assert_eq!(e2.job_id, submitted);
    s.on_submit_outcome(e2, m2.backend_id, SubmitOutcome::Accepted(2), 15);

    // Crash: only the store survives.
    let store = s.store.clone();
    let recovered = Scheduler::recover(SchedulerConfig::standard(), store);
    // The Queued job is back in the queue under its persisted admission key.
    assert_eq!(recovered.queue.len(), 1);
    assert_eq!(recovered.queue.entries[0].job_id, done);
    assert_eq!(recovered.queue.entries[0].admitted_at, 12);
    // The Submitted job is back in flight; the Completed one is in neither.
    assert_eq!(recovered.in_flight, vec![submitted]);
    // Snapshots are unchanged by recovery.
    assert_eq!(recovered.get_status(queued).unwrap().status, ScheduledJobStatus::Completed);
    // Fresh ids stay fresh after recovery.
    assert!(recovered.next_job_id > done);
}

#[test]
fn test_cancel_is_idempotent() {
    // Cancelling a job already Cancelled or Completed changes nothing and
    // reports success.
    let mut s = Scheduler::new(SchedulerConfig::standard());
    let id = s.admit_job("c".to_string(), Priority::Normal, reqs(2), CircuitSpec { handle: 1 }, 10).unwrap();
    assert_eq!(s.cancel(id, 11), Ok(CancelDisposition::CancelledLocally));
    let snapshot = s.store.get(id).unwrap();
    assert_eq!(snapshot.status, ScheduledJobStatus::Cancelled);
    assert_eq!(s.queue.len(), 0);
    // Again: success, unchanged (even the timestamp).
    assert_eq!(s.cancel(id, 99), Ok(CancelDisposition::AlreadyTerminal));
    let again = s.store.get(id).unwrap();
    assert_eq!(again.status, ScheduledJobStatus::Cancelled);
    assert_eq!(again.updated_at, snapshot.updated_at);

    // A completed job is likewise left unchanged.
    let done = s.admit_job("d".to_string(), Priority::Normal, reqs(2), CircuitSpec { handle: 2 }, 10).unwrap();
    let descriptors = vec![backend(1, 4)];
    let (e, m) = s.pick_next(&descriptors).unwrap();
    s.on_submit_outcome(e, m.backend_id, SubmitOutcome::Accepted(3), 11);
    s.on_poll(done, ExternalState::Completed(5), 12);
    assert_eq!(s.cancel(done, 13), Ok(CancelDisposition::AlreadyTerminal));
    assert_eq!(s.store.get(done).unwrap().status, ScheduledJobStatus::Completed);

    assert_eq!(s.cancel(424242, 13), Err(SchedError::UnknownJob));
}

#[test]
fn test_cancel_external_job_via_poll() {
    let mut s = Scheduler::new(SchedulerConfig::standard());
    let id = s.admit_job("x".to_string(), Priority::Normal, reqs(2), CircuitSpec { handle: 1 }, 10).unwrap();
    let descriptors = vec![backend(1, 4)];
    let (e, m) = s.pick_next(&descriptors).unwrap();
    s.on_submit_outcome(e, m.backend_id, SubmitOutcome::Accepted(77), 11);
    // External job: the caller is told the handle, the local state waits.
    assert_eq!(s.cancel(id, 12), Ok(CancelDisposition::CancelRequested(77)));
    assert_eq!(s.store.get(id).unwrap().status, ScheduledJobStatus::Submitted);
    // After best-effort external cancel (or a bounded timeout), mark locally.
    assert_eq!(s.on_poll(id, ExternalState::Cancelled, 13), PollDisposition::Cancelled);
    assert_eq!(s.store.get(id).unwrap().status, ScheduledJobStatus::Cancelled);
    assert!(s.in_flight.is_empty());
}

#[test]
fn test_poll_transitions() {
    let mut s = Scheduler::new(SchedulerConfig::standard());
    let id = s.admit_job("p".to_string(), Priority::Normal, reqs(2), CircuitSpec { handle: 1 }, 10).unwrap();
    let descriptors = vec![backend(1, 4)];
    let (e, m) = s.pick_next(&descriptors).unwrap();
    s.on_submit_outcome(e, m.backend_id, SubmitOutcome::Accepted(9), 11);
    // Transient answers change nothing.
    assert_eq!(s.on_poll(id, ExternalState::Unknown, 12), PollDisposition::NoChange);
    assert_eq!(s.on_poll(id, ExternalState::Submitted, 12), PollDisposition::NoChange);
    assert_eq!(s.store.get(id).unwrap().status, ScheduledJobStatus::Submitted);
    assert_eq!(s.on_poll(id, ExternalState::Running, 13), PollDisposition::Running);
    assert_eq!(s.store.get(id).unwrap().status, ScheduledJobStatus::Running);
    // Running is still in flight.
    assert_eq!(s.in_flight, vec![id]);
    assert_eq!(s.on_poll(id, ExternalState::Completed(3), 14), PollDisposition::Completed);
    assert!(s.in_flight.is_empty());
}

#[test]
fn test_illegal_transitions_rejected() {
    let mut s = Scheduler::new(SchedulerConfig::standard());
    let id = s.admit_job("t".to_string(), Priority::Normal, reqs(2), CircuitSpec { handle: 1 }, 10).unwrap();
    // Already queued: releasing it again is an illegal transition.
    assert_eq!(s.enqueue_job(id, 11), Err(SchedError::IllegalTransition));
    assert_eq!(s.enqueue_job(999, 11), Err(SchedError::UnknownJob));
    assert_eq!(s.workflow_status(999), Err(SchedError::UnknownWorkflow));
    assert_eq!(s.ready_in_workflow(999), Err(SchedError::UnknownWorkflow));
}

#[test]
fn test_slurm_state_mapping() {
    assert_eq!(map_slurm_state(SlurmJobState::Pending, 0), ExternalState::Submitted);
    assert_eq!(map_slurm_state(SlurmJobState::Configuring, 0), ExternalState::Submitted);
    assert_eq!(map_slurm_state(SlurmJobState::Running, 0), ExternalState::Running);
    assert_eq!(map_slurm_state(SlurmJobState::Completing, 0), ExternalState::Running);
    assert_eq!(map_slurm_state(SlurmJobState::Completed, 7), ExternalState::Completed(7));
    assert_eq!(map_slurm_state(SlurmJobState::Failed, 0), ExternalState::Failed);
    assert_eq!(map_slurm_state(SlurmJobState::Timeout, 0), ExternalState::Failed);
    assert_eq!(map_slurm_state(SlurmJobState::NodeFail, 0), ExternalState::Failed);
    assert_eq!(map_slurm_state(SlurmJobState::OutOfMemory, 0), ExternalState::Failed);
    assert_eq!(map_slurm_state(SlurmJobState::Cancelled, 0), ExternalState::Cancelled);
}

#[test]
fn test_error_descriptions() {
    assert_eq!(SchedError::InvalidJobSpec.describe(), "invalid job specification");
    assert_eq!(SchedError::CyclicDependency.describe(), "dependency edge would create a cycle");
    assert_eq!(SchedError::RetriesExhausted.describe(), "retry limit exhausted");
}
