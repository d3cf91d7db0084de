//! Workflow model: a directed acyclic dependency graph over jobs with
//! aggregate status derivation.
//!
//! An edge means "the predecessor must complete successfully before the
//! successor is eligible". A dependency edge that would create a cycle is
//! rejected atomically: the operation fails with `CyclicDependency` and the
//! graph is left untouched. Aggregate status is a pure function of the
//! constituent job statuses.

use vstd::prelude::*;

use crate::error::SchedError;
use crate::error::SchedResult;
use crate::job::ScheduledJobId;
use crate::job::ScheduledJobStatus;

verus! {

/// Process-unique identifier of a workflow.
pub type WorkflowId = u64;

/// Aggregate status of a workflow, derived from its jobs.
#[derive(Clone, Copy, Debug, PartialEq, Eq, Structural)]
pub enum WorkflowStatus {
    /// Some constituent is non-terminal (or failure propagation is off and
    /// not every constituent completed).
    Pending,
    /// Every constituent job completed.
    Completed,
    /// At least one constituent failed and failure propagation is enabled.
    Failed,
}

/// One job inside a workflow: its id, the indices of the jobs it depends on,
/// a mirror of its current status, and whether it was already enqueued.
#[derive(Clone, Debug)]
pub struct WorkflowNode {
    /// Id of the job this node stands for.
    pub job_id: ScheduledJobId,
    /// Indices (into the workflow's node list) of the direct predecessors.
    pub deps: Vec<usize>,
    /// Mirror of the job's current status, updated by the scheduler.
    pub status: ScheduledJobStatus,
    /// Whether the job was already admitted into the priority queue.
    pub queued: bool,
}

/// Whether node `i` depends directly on node `j`.
pub open spec fn dep_edge(nodes: Seq<WorkflowNode>, i: usize, j: usize) -> bool {
    i < nodes.len() && nodes[i as int].deps@.contains(j)
}

/// A node is ready when it is still pending, not yet queued, and every direct
/// predecessor has completed.
pub open spec fn spec_ready(nodes: Seq<WorkflowNode>, i: int) -> bool {
    &&& 0 <= i < nodes.len()
    &&& nodes[i].status == ScheduledJobStatus::Pending
    &&& !nodes[i].queued
    &&& forall|k: int| 0 <= k < nodes[i].deps@.len()
        ==> nodes[#[trigger] nodes[i].deps@[k] as int].status == ScheduledJobStatus::Completed
}

/// The job ids of the ready nodes among the first `n`, in node order.
pub open spec fn ready_seq(nodes: Seq<WorkflowNode>, n: int) -> Seq<ScheduledJobId>
    recommends
        n <= nodes.len(),
    decreases n,
{
    if n <= 0 {
        Seq::empty()
    } else if spec_ready(nodes, n - 1) {
        ready_seq(nodes, n - 1).push(nodes[n - 1].job_id)
    } else {
        ready_seq(nodes, n - 1)
    }
}

/// An id occurs in the ready sequence exactly when it names a ready node.
pub proof fn lemma_ready_seq_membership(nodes: Seq<WorkflowNode>, n: int, id: ScheduledJobId)
    requires
        0 <= n <= nodes.len(),
    ensures
        ready_seq(nodes, n).contains(id) <==> exists|i: int|
            0 <= i < n && #[trigger] nodes[i].job_id == id && spec_ready(nodes, i),
    decreases n,
{
    if n > 0 {
        lemma_ready_seq_membership(nodes, n - 1, id);
        let prev = ready_seq(nodes, n - 1);
        let cur = ready_seq(nodes, n);
        if spec_ready(nodes, n - 1) && nodes[n - 1].job_id == id {
            assert(cur[cur.len() - 1] == id);
            assert(cur.contains(id));
        }
        if cur.contains(id) {
            let k = choose|k: int| 0 <= k < cur.len() && cur[k] == id;
            if spec_ready(nodes, n - 1) {
                if k < cur.len() - 1 {
                    assert(prev[k] == id);
                    assert(prev.contains(id));
                }
            } else {
                assert(prev.contains(id));
            }
        } else {
            if prev.contains(id) {
                let k = choose|k: int| 0 <= k < prev.len() && prev[k] == id;
                assert(cur[k] == id);
            }
        }
    }
}

/// Every constituent job completed.
pub open spec fn spec_all_completed(nodes: Seq<WorkflowNode>) -> bool {
    forall|i: int| 0 <= i < nodes.len()
        ==> #[trigger] nodes[i].status == ScheduledJobStatus::Completed
}

/// At least one constituent job failed.
pub open spec fn spec_any_failed(nodes: Seq<WorkflowNode>) -> bool {
    exists|i: int| 0 <= i < nodes.len()
        && #[trigger] nodes[i].status == ScheduledJobStatus::Failed
}

/// A dependency graph of job ids with a mirror of their statuses.
#[derive(Clone, Debug)]
pub struct Workflow {
    /// Workflow id.
    pub id: WorkflowId,
    /// Whether a failed job marks the whole workflow failed (the default);
    /// otherwise unaffected branches continue best-effort.
    pub propagate_failures: bool,
    /// The nodes, in insertion order. Never removed.
    pub nodes: Vec<WorkflowNode>,
}

impl Workflow {
    /// Well-formedness: dependency indices are in range and job ids unique.
    pub open spec fn wf(self) -> bool {
        &&& forall|i: int, k: int|
            0 <= i < self.nodes@.len() && 0 <= k < #[trigger] self.nodes@[i].deps@.len()
            ==> #[trigger] self.nodes@[i].deps@[k] < self.nodes@.len()
        &&& forall|i: int, j: int|
            0 <= i < self.nodes@.len() && 0 <= j < self.nodes@.len() && i != j
            ==> #[trigger] self.nodes@[i].job_id != #[trigger] self.nodes@[j].job_id
    }

    /// Whether some node stands for job `id`.
    pub open spec fn spec_has_job(self, id: ScheduledJobId) -> bool {
        exists|i: int| 0 <= i < self.nodes@.len() && #[trigger] self.nodes@[i].job_id == id
    }

    /// The index of the node standing for job `id`.
    pub open spec fn spec_index_of(self, id: ScheduledJobId) -> int {
        choose|i: int| 0 <= i < self.nodes@.len() && #[trigger] self.nodes@[i].job_id == id
    }

    /// Aggregate status as a pure function of the constituent statuses:
    /// `Failed` when any constituent failed and propagation is on, otherwise
    /// `Completed` when every constituent completed, otherwise `Pending`.
    pub open spec fn spec_status(self) -> WorkflowStatus {
        if self.propagate_failures && spec_any_failed(self.nodes@) {
            WorkflowStatus::Failed
        } else if spec_all_completed(self.nodes@) {
            WorkflowStatus::Completed
        } else {
            WorkflowStatus::Pending
        }
    }

    /// Create an empty workflow.
    pub fn new(id: WorkflowId, propagate_failures: bool) -> (w: Workflow)
        ensures
            w.wf(),
            w.id == id,
            w.propagate_failures == propagate_failures,
            w.nodes@.len() == 0,
    {
        Workflow { id, propagate_failures, nodes: Vec::new() }
    }

    /// Number of jobs in the workflow.
    pub fn len(&self) -> (n: usize)
        ensures
            n == self.nodes@.len(),
    {
        self.nodes.len()
    }

    /// Find the node index of job `id`.
    pub fn find_node(&self, id: ScheduledJobId) -> (r: Option<usize>)
        requires
            self.wf(),
        ensures
            r matches Some(i) ==> i < self.nodes@.len() && self.nodes@[i as int].job_id == id
                && i as int == self.spec_index_of(id),
            r is None <==> !self.spec_has_job(id),
    {
        let n = self.nodes.len();
        let mut i: usize = 0;
        while i < n
            invariant
                0 <= i <= n,
                n == self.nodes@.len(),
                self.wf(),
                forall|j: int| 0 <= j < i ==> #[trigger] self.nodes@[j].job_id != id,
            decreases n - i,
        {
            if self.nodes[i].job_id == id {
                proof {
                    assert forall|j: int|
                        0 <= j < self.nodes@.len() && #[trigger] self.nodes@[j].job_id == id
                        implies j == i as int by {}
                }
                return Some(i);
            }
            i = i + 1;
        }
        None
    }

    /// Add a job with dependencies on already present jobs.
    ///
    /// Fails with `DuplicateJob` when the id is already present, with
    /// `CyclicDependency` when the job would depend on itself, and with
    /// `UnknownDependency` when a referenced id is not part of the workflow.
    /// On failure the graph is left unchanged.
    pub fn add_job(&mut self, job_id: ScheduledJobId, depends_on: &Vec<ScheduledJobId>) -> (r:
        SchedResult<()>)
        requires
            old(self).wf(),
        ensures
            final(self).wf(),
            final(self).id == old(self).id,
            final(self).propagate_failures == old(self).propagate_failures,
            r is Err ==> *final(self) == *old(self),
            r == Err::<(), SchedError>(SchedError::DuplicateJob) <==> old(self).spec_has_job(job_id),
            !old(self).spec_has_job(job_id) ==> (
                r == Err::<(), SchedError>(SchedError::CyclicDependency)
                    <==> depends_on@.contains(job_id)
            ),
            (!old(self).spec_has_job(job_id) && !depends_on@.contains(job_id)) ==> (
                r == Err::<(), SchedError>(SchedError::UnknownDependency)
                    <==> exists|k: int| 0 <= k < depends_on@.len()
                        && !old(self).spec_has_job(#[trigger] depends_on@[k])
            ),
            r is Ok <==> (
                !old(self).spec_has_job(job_id)
                && !depends_on@.contains(job_id)
                && forall|k: int| 0 <= k < depends_on@.len()
                    ==> old(self).spec_has_job(#[trigger] depends_on@[k])
            ),
            r is Ok ==> {
                let node = final(self).nodes@.last();
                &&& final(self).nodes@.len() == old(self).nodes@.len() + 1
                &&& final(self).nodes@.subrange(0, old(self).nodes@.len() as int)
                    =~= old(self).nodes@
                &&& node.job_id == job_id
                &&& node.status == ScheduledJobStatus::Pending
                &&& !node.queued
                &&& node.deps@.len() == depends_on@.len()
                &&& forall|k: int| 0 <= k < depends_on@.len()
                    ==> old(self).nodes@[#[trigger] node.deps@[k] as int].job_id == depends_on@[k]
            },
    {
        if self.find_node(job_id).is_some() {
            return Err(SchedError::DuplicateJob);
        }
        let dn = depends_on.len();
        let mut k: usize = 0;
        while k < dn
            invariant
                0 <= k <= dn,
                forall|j: int| 0 <= j < k ==> #[trigger] depends_on@[j] != job_id,
            decreases dn - k,
        {
            if depends_on[k] == job_id {
                assert(depends_on@.contains(job_id));
                return Err(SchedError::CyclicDependency);
            }
            k = k + 1;
        }
        assert(!depends_on@.contains(job_id));
        let mut deps: Vec<usize> = Vec::new();
        let mut k: usize = 0;
        while k < dn
            invariant
                0 <= k <= dn,
                deps@.len() == k,
                forall|j: int| 0 <= j < k
                    ==> old(self).spec_has_job(#[trigger] depends_on@[j]),
                forall|j: int| 0 <= j < k ==> #[trigger] deps@[j] < self.nodes@.len(),
                forall|j: int| 0 <= j < k
                    ==> self.nodes@[#[trigger] deps@[j] as int].job_id == depends_on@[j],
            decreases dn - k,
        {
            match self.find_node(depends_on[k]) {
                Some(i) => deps.push(i),
                None => {
                    return Err(SchedError::UnknownDependency);
                },
            }
            k = k + 1;
        }
        let node = WorkflowNode {
            job_id,
            deps,
            status: ScheduledJobStatus::Pending,
            queued: false,
        };
        self.nodes.push(node);
        proof {
            assert(final(self).nodes@.subrange(0, old(self).nodes@.len() as int)
                =~= old(self).nodes@);
            assert forall|i: int, j: int|
                0 <= i < final(self).nodes@.len() && 0 <= j < final(self).nodes@.len() && i != j
                implies #[trigger] final(self).nodes@[i].job_id
                    != #[trigger] final(self).nodes@[j].job_id by {
                if i < old(self).nodes@.len() && j < old(self).nodes@.len() {
                } else if i == old(self).nodes@.len() as int {
                    assert(!old(self).spec_has_job(job_id));
                } else {
                    assert(!old(self).spec_has_job(job_id));
                }
            }
        }
        Ok(())
    }

    /// Derive the aggregate status. Pure: the graph is not mutated.
    pub fn status(&self) -> (r: WorkflowStatus)
        ensures
            r == self.spec_status(),
    {
        let n = self.nodes.len();
        let mut all_completed = true;
        let mut any_failed = false;
        let mut i: usize = 0;
        while i < n
            invariant
                0 <= i <= n,
                n == self.nodes@.len(),
                all_completed == (forall|j: int| 0 <= j < i
                    ==> #[trigger] self.nodes@[j].status == ScheduledJobStatus::Completed),
                any_failed == (exists|j: int| 0 <= j < i
                    && #[trigger] self.nodes@[j].status == ScheduledJobStatus::Failed),
            decreases n - i,
        {
            let st = &self.nodes[i].status;
            if !matches!(st, ScheduledJobStatus::Completed) {
                all_completed = false;
            }
            if matches!(st, ScheduledJobStatus::Failed) {
                any_failed = true;
            }
            i = i + 1;
        }
        if self.propagate_failures && any_failed {
            WorkflowStatus::Failed
        } else if all_completed {
            WorkflowStatus::Completed
        } else {
            WorkflowStatus::Pending
        }
    }

    /// The job ids whose predecessors are all in a successful terminal state
    /// and which are not yet queued, in node order.
    pub fn ready_jobs(&self) -> (r: Vec<ScheduledJobId>)
        requires
            self.wf(),
        ensures
            r@ =~= ready_seq(self.nodes@, self.nodes@.len() as int),
    {
        let n = self.nodes.len();
        let mut out: Vec<ScheduledJobId> = Vec::new();
        let mut i: usize = 0;
        while i < n
            invariant
                0 <= i <= n,
                n == self.nodes@.len(),
                self.wf(),
                out@ =~= ready_seq(self.nodes@, i as int),
            decreases n - i,
        {
            let node = &self.nodes[i];
            let mut ok = matches!(node.status, ScheduledJobStatus::Pending) && !node.queued;
            let dn = node.deps.len();
            let mut k: usize = 0;
            while k < dn
                invariant
                    0 <= k <= dn,
                    n == self.nodes@.len(),
                    i < n,
                    self.wf(),
                    node == self.nodes@[i as int],
                    dn == node.deps@.len(),
                    ok == (
                        node.status == ScheduledJobStatus::Pending
                        && !node.queued
                        && forall|j: int| 0 <= j < k
                            ==> self.nodes@[#[trigger] node.deps@[j] as int].status
                                == ScheduledJobStatus::Completed
                    ),
                decreases dn - k,
            {
                if ok {
                    let dep = node.deps[k];
                    if !matches!(self.nodes[dep].status, ScheduledJobStatus::Completed) {
                        ok = false;
                    }
                }
                k = k + 1;
            }
            if ok {
                out.push(node.job_id);
            }
            i = i + 1;
        }
        out
    }

    /// Record that job `id` was admitted into the queue.
    pub fn mark_queued(&mut self, id: ScheduledJobId) -> (r: SchedResult<()>)
        requires
            old(self).wf(),
        ensures
            final(self).wf(),
            final(self).id == old(self).id,
            final(self).propagate_failures == old(self).propagate_failures,
            r is Ok <==> old(self).spec_has_job(id),
            r is Err ==> *final(self) == *old(self) && r == Err::<(), SchedError>(
                SchedError::UnknownJob,
            ),
            r is Ok ==> {
                let i = old(self).spec_index_of(id);
                final(self).nodes@ =~= old(self).nodes@.update(i, WorkflowNode {
                    queued: true,
                    ..old(self).nodes@[i]
                })
            },
    {
        match self.find_node(id) {
            Some(i) => {
                let node = &mut self.nodes[i];
                node.queued = true;
                Ok(())
            },
            None => Err(SchedError::UnknownJob),
        }
    }

    /// Mirror a status change of job `id` into the workflow.
    pub fn set_job_status(&mut self, id: ScheduledJobId, status: ScheduledJobStatus) -> (r:
        SchedResult<()>)
        requires
            old(self).wf(),
        ensures
            final(self).wf(),
            final(self).id == old(self).id,
            final(self).propagate_failures == old(self).propagate_failures,
            r is Ok <==> old(self).spec_has_job(id),
            r is Err ==> *final(self) == *old(self) && r == Err::<(), SchedError>(
                SchedError::UnknownJob,
            ),
            r is Ok ==> {
                let i = old(self).spec_index_of(id);
                final(self).nodes@ =~= old(self).nodes@.update(i, WorkflowNode {
                    status,
                    ..old(self).nodes@[i]
                })
            },
    {
        match self.find_node(id) {
            Some(i) => {
                let node = &mut self.nodes[i];
                node.status = status;
                Ok(())
            },
            None => Err(SchedError::UnknownJob),
        }
    }
}

/// Number of `true` entries in a sequence of marks.
pub open spec fn count_true(s: Seq<bool>) -> int
    decreases s.len(),
{
    if s.len() == 0 {
        0
    } else {
        count_true(s.drop_last()) + if s.last() {
            1int
        } else {
            0int
        }
    }
}

proof fn lemma_count_true_le(s: Seq<bool>)
    ensures
        0 <= count_true(s) <= s.len(),
    decreases s.len(),
{
    if s.len() > 0 {
        lemma_count_true_le(s.drop_last());
    }
}

proof fn lemma_count_true_update(s: Seq<bool>, i: int)
    requires
        0 <= i < s.len(),
        !s[i],
    ensures
        count_true(s.update(i, true)) == count_true(s) + 1,
    decreases s.len(),
{
    let t = s.update(i, true);
    if i == s.len() - 1 {
        assert(t.drop_last() =~= s.drop_last());
    } else {
        assert(t.drop_last() =~= s.drop_last().update(i, true));
        lemma_count_true_update(s.drop_last(), i);
    }
}

/// The nodes reachable from `from` by following dependency edges for at most
/// `k` steps.
pub open spec fn reach_n(nodes: Seq<WorkflowNode>, from: usize, k: nat) -> Set<usize>
    decreases k,
{
    if k == 0 {
        Set::empty().insert(from)
    } else {
        let prev = reach_n(nodes, from, (k - 1) as nat);
        prev.union(
            Set::new(|y: usize| exists|x: usize| #[trigger] prev.contains(x) && dep_edge(nodes, x, y)),
        )
    }
}

/// Node `to` is reachable from node `from` by following dependency edges
/// (in zero or more steps; every node reaches itself).
pub open spec fn spec_reaches(nodes: Seq<WorkflowNode>, from: usize, to: usize) -> bool {
    exists|k: nat| reach_n(nodes, from, k).contains(to)
}

/// Reachability is reflexive.
proof fn lemma_reaches_self(nodes: Seq<WorkflowNode>, from: usize)
    ensures
        spec_reaches(nodes, from, from),
{
    assert(reach_n(nodes, from, 0).contains(from));
}

/// One more dependency edge extends reachability.
proof fn lemma_reach_step(nodes: Seq<WorkflowNode>, from: usize, x: usize, y: usize)
    requires
        spec_reaches(nodes, from, x),
        dep_edge(nodes, x, y),
    ensures
        spec_reaches(nodes, from, y),
{
    let k = choose|k: nat| reach_n(nodes, from, k).contains(x);
    let prev = reach_n(nodes, from, k);
    assert(exists|x0: usize| #[trigger] prev.contains(x0) && dep_edge(nodes, x0, y)) by {
        assert(prev.contains(x) && dep_edge(nodes, x, y));
    }
    assert(reach_n(nodes, from, k + 1).contains(y));
}

/// A set that contains `from` and is closed under dependency edges contains
/// everything reachable from `from`.
proof fn lemma_reach_closed(nodes: Seq<WorkflowNode>, from: usize, vset: Set<usize>, k: nat)
    requires
        vset.contains(from),
        forall|x: usize, y: usize|
            #[trigger] vset.contains(x) && #[trigger] dep_edge(nodes, x, y) ==> vset.contains(y),
    ensures
        forall|t: usize| reach_n(nodes, from, k).contains(t) ==> vset.contains(t),
    decreases k,
{
    if k > 0 {
        lemma_reach_closed(nodes, from, vset, (k - 1) as nat);
        let prev = reach_n(nodes, from, (k - 1) as nat);
        assert forall|t: usize| reach_n(nodes, from, k).contains(t) implies vset.contains(t) by {
            if !prev.contains(t) {
                let x = choose|x: usize| #[trigger] prev.contains(x) && dep_edge(nodes, x, t);
                assert(vset.contains(x));
            }
        }
    }
}

impl Workflow {
    /// Whether node `to` is reachable from node `from` along dependency
    /// edges. A breadth-first scan over the graph.
    fn reaches(&self, from: usize, to: usize) -> (r: bool)
        requires
            self.wf(),
            from < self.nodes@.len(),
            to < self.nodes@.len(),
        ensures
            r == spec_reaches(self.nodes@, from, to),
    {
        let ghost nodes = self.nodes@;
        let n = self.nodes.len();
        let mut visited: Vec<bool> = Vec::new();
        let mut i: usize = 0;
        while i < n
            invariant
                0 <= i <= n,
                visited@.len() == i,
                forall|j: int| 0 <= j < i ==> !visited@[j],
                count_true(visited@) == 0,
            decreases n - i,
        {
            let ghost before = visited@;
            visited.push(false);
            proof {
                assert(visited@.drop_last() =~= before);
            }
            i = i + 1;
        }
        proof {
            lemma_count_true_update(visited@, from as int);
            lemma_reaches_self(nodes, from);
        }
        visited[from] = true;
        let mut stack: Vec<usize> = Vec::new();
        stack.push(from);
        proof {
            assert(stack@[0] == from);
            assert(stack@.contains(from));
            assert(count_true(visited@) == 1);
        }
        while stack.len() > 0
            invariant
                visited@.len() == n,
                visited@[from as int],
                forall|j: int| 0 <= j < stack@.len()
                    ==> (#[trigger] stack@[j]) < n && visited@[stack@[j] as int],
                forall|i2: int| 0 <= i2 < n && #[trigger] visited@[i2]
                    ==> spec_reaches(nodes, from, i2 as usize),
                forall|x: usize, y: usize|
                    x < n && visited@[x as int] && !stack@.contains(x)
                    && #[trigger] dep_edge(nodes, x, y) ==> y < n && visited@[y as int],
                0 <= count_true(visited@) <= n,
            decreases 2 * (n - count_true(visited@)) + stack@.len(),
        {
            let ghost stack0 = stack@;
            let ghost visited0 = visited@;
            let x = stack.pop().unwrap();
            proof {
                assert forall|x2: usize| stack0.contains(x2) && x2 != x
                    implies stack@.contains(x2) by {
                    let i = choose|i: int| 0 <= i < stack0.len() && stack0[i] == x2;
                    assert(stack@[i] == x2);
                }
            }
            let dn = self.nodes[x].deps.len();
            let mut k: usize = 0;
            while k < dn
                invariant
                    0 <= k <= dn,
                    x < n,
                    dn == nodes[x as int].deps@.len(),
                    visited@.len() == n,
                    visited@[from as int],
                    visited@[x as int],
                    forall|j: int| 0 <= j < stack@.len()
                        ==> (#[trigger] stack@[j]) < n && visited@[stack@[j] as int],
                    forall|i2: int| 0 <= i2 < n && #[trigger] visited@[i2]
                        ==> spec_reaches(nodes, from, i2 as usize),
                    forall|x2: usize, y: usize|
                        x2 < n && visited@[x2 as int] && !stack@.contains(x2) && x2 != x
                        && #[trigger] dep_edge(nodes, x2, y) ==> y < n && visited@[y as int],
                    forall|j: int| 0 <= j < k
                        ==> visited@[#[trigger] nodes[x as int].deps@[j] as int],
                    0 <= count_true(visited@) <= n,
                    2 * (n - count_true(visited@)) + stack@.len()
                        <= 2 * (n - count_true(visited0)) + stack0.len() - 1,
                decreases dn - k,
            {
                let y = self.nodes[x].deps[k];
                assert(dep_edge(nodes, x, y));
                if !visited[y] {
                    let ghost istack = stack@;
                    proof {
                        lemma_count_true_update(visited@, y as int);
                        lemma_reach_step(nodes, from, x, y);
                    }
                    visited[y] = true;
                    stack.push(y);
                    proof {
                        lemma_count_true_le(visited@);
                        assert(stack@[stack@.len() - 1] == y);
                        assert(stack@.contains(y));
                        assert forall|x2: usize| istack.contains(x2)
                            implies stack@.contains(x2) by {
                            let i = choose|i: int| 0 <= i < istack.len() && istack[i] == x2;
                            assert(stack@[i] == x2);
                        }
                    }
                }
                k = k + 1;
            }
            proof {
                assert forall|x2: usize, y: usize|
                    x2 < n && visited@[x2 as int] && !stack@.contains(x2)
                    && #[trigger] dep_edge(nodes, x2, y) implies y < n && visited@[y as int] by {
                    if x2 == x {
                        let j = choose|j: int|
                            0 <= j < nodes[x as int].deps@.len()
                            && nodes[x as int].deps@[j] == y;
                        assert(visited@[nodes[x as int].deps@[j] as int]);
                    }
                }
            }
        }
        let r = visited[to];
        proof {
            if !r && spec_reaches(nodes, from, to) {
                let vset = Set::new(|i2: usize| i2 < n && visited@[i2 as int]);
                let k = choose|k: nat| reach_n(nodes, from, k).contains(to);
                lemma_reach_closed(nodes, from, vset, k);
                assert(vset.contains(to));
            }
        }
        r
    }

    /// Whether making job `succ` depend on job `pred` would close a cycle:
    /// `pred` already depends, transitively or trivially, on `succ`.
    pub open spec fn spec_creates_cycle(self, pred: ScheduledJobId, succ: ScheduledJobId) -> bool {
        spec_reaches(
            self.nodes@,
            self.spec_index_of(pred) as usize,
            self.spec_index_of(succ) as usize,
        )
    }

    /// Whether job `succ` already depends directly on job `pred`.
    pub open spec fn spec_has_edge(self, pred: ScheduledJobId, succ: ScheduledJobId) -> bool {
        self.nodes@[self.spec_index_of(succ)].deps@.contains(
            self.spec_index_of(pred) as usize,
        )
    }

    /// How [`Workflow::add_dependency`] changes the graph when it accepts a
    /// new edge: the successor's dependency list gains the predecessor's
    /// index and everything else is kept.
    pub open spec fn spec_edge_added(self, next: Workflow, pred: ScheduledJobId, succ: ScheduledJobId) -> bool {
        let si = self.spec_index_of(succ);
        let pi = self.spec_index_of(pred);
        &&& next.id == self.id
        &&& next.propagate_failures == self.propagate_failures
        &&& next.nodes@.len() == self.nodes@.len()
        &&& (forall|j: int| 0 <= j < self.nodes@.len() && j != si
            ==> next.nodes@[j] == self.nodes@[j])
        &&& next.nodes@[si].job_id == self.nodes@[si].job_id
        &&& next.nodes@[si].status == self.nodes@[si].status
        &&& next.nodes@[si].queued == self.nodes@[si].queued
        &&& next.nodes@[si].deps@ =~= self.nodes@[si].deps@.push(pi as usize)
    }

    /// Add the dependency edge "`succ` depends on `pred`".
    ///
    /// Law: an edge that would create a cycle always fails with
    /// `CyclicDependency` and never mutates the graph — the rejection is
    /// atomic. An edge already present is accepted without change. Unknown
    /// endpoints fail with `UnknownDependency`.
    pub fn add_dependency(&mut self, pred: ScheduledJobId, succ: ScheduledJobId) -> (r: SchedResult<
        (),
    >)
        requires
            old(self).wf(),
        ensures
            final(self).wf(),
            final(self).id == old(self).id,
            final(self).propagate_failures == old(self).propagate_failures,
            r is Err ==> *final(self) == *old(self),
            r == Err::<(), SchedError>(SchedError::UnknownDependency)
                <==> !(old(self).spec_has_job(pred) && old(self).spec_has_job(succ)),
            (old(self).spec_has_job(pred) && old(self).spec_has_job(succ)) ==> {
                &&& (r == Err::<(), SchedError>(SchedError::CyclicDependency)
                    <==> (!old(self).spec_has_edge(pred, succ)
                        && old(self).spec_creates_cycle(pred, succ)))
                &&& (old(self).spec_has_edge(pred, succ) ==> r is Ok && *final(self) == *old(self))
                &&& ((!old(self).spec_has_edge(pred, succ)
                    && !old(self).spec_creates_cycle(pred, succ)) ==> (
                    r is Ok && old(self).spec_edge_added(*final(self), pred, succ)
                ))
            },
    {
        let pio = self.find_node(pred);
        let sio = self.find_node(succ);
        let (pi, si) = match (pio, sio) {
            (Some(pi), Some(si)) => (pi, si),
            _ => {
                return Err(SchedError::UnknownDependency);
            },
        };
        let dn = self.nodes[si].deps.len();
        let mut k: usize = 0;
        while k < dn
            invariant
                0 <= k <= dn,
                forall|j: int| 0 <= j < k ==> #[trigger] self.nodes@[si as int].deps@[j] != pi,
            decreases dn - k,
        {
            if self.nodes[si].deps[k] == pi {
                assert(old(self).spec_has_edge(pred, succ));
                return Ok(());
            }
            k = k + 1;
        }
        assert(!old(self).spec_has_edge(pred, succ));
        if self.reaches(pi, si) {
            return Err(SchedError::CyclicDependency);
        }
        let node = &mut self.nodes[si];
        node.deps.push(pi);
        Ok(())
    }
}

/// Law: the aggregate status is `Completed` exactly when every constituent
/// completed, `Failed` exactly when some constituent failed and propagation
/// is enabled, and never both.
pub proof fn lemma_status_derivation(w: Workflow)
    ensures
        w.spec_status() == WorkflowStatus::Completed <==> spec_all_completed(w.nodes@),
        w.spec_status() == WorkflowStatus::Failed
            <==> (w.propagate_failures && spec_any_failed(w.nodes@)),
        !(w.spec_status() == WorkflowStatus::Completed
            && w.spec_status() == WorkflowStatus::Failed),
{
    if w.propagate_failures && spec_any_failed(w.nodes@) {
        let i = choose|i: int| 0 <= i < w.nodes@.len()
            && #[trigger] w.nodes@[i].status == ScheduledJobStatus::Failed;
        assert(w.nodes@[i].status != ScheduledJobStatus::Completed);
        assert(!spec_all_completed(w.nodes@));
    }
}

/// Law: a job one of whose direct dependencies failed is not ready and is
/// never produced by the readiness scan.
pub proof fn lemma_failed_dependency_blocks(w: Workflow, i: int, k: int)
    requires
        w.wf(),
        0 <= i < w.nodes@.len(),
        0 <= k < w.nodes@[i].deps@.len(),
        w.nodes@[w.nodes@[i].deps@[k] as int].status == ScheduledJobStatus::Failed,
    ensures
        !spec_ready(w.nodes@, i),
        !ready_seq(w.nodes@, w.nodes@.len() as int).contains(w.nodes@[i].job_id),
{
    assert(!spec_ready(w.nodes@, i));
    lemma_ready_seq_membership(w.nodes@, w.nodes@.len() as int, w.nodes@[i].job_id);
    if ready_seq(w.nodes@, w.nodes@.len() as int).contains(w.nodes@[i].job_id) {
        let j = choose|j: int| 0 <= j < w.nodes@.len()
            && #[trigger] w.nodes@[j].job_id == w.nodes@[i].job_id && spec_ready(w.nodes@, j);
        assert(j == i);
    }
}

} // verus!
