//! Stable priority queue of admitted jobs.
//!
//! Ordering: primary key is priority (higher first), secondary key is the
//! admission timestamp (earlier first). An entry re-pushed after a failed
//! attempt keeps its original admission timestamp, so a job is never
//! penalized in ordering for having been attempted once. Among entries equal
//! in both keys, the one pushed first leaves first.

use vstd::prelude::*;

use crate::job::Priority;
use crate::job::ScheduledJobId;

verus! {

/// One queue entry: the queue owns only the ordering key; the authoritative
/// job record is looked up by id.
#[derive(Clone, Copy, Debug, PartialEq, Eq, Structural)]
pub struct QueueEntry {
    /// Id of the queued job.
    pub job_id: ScheduledJobId,
    /// Priority at admission.
    pub priority: Priority,
    /// Admission timestamp; kept across re-pushes.
    pub admitted_at: u64,
}

/// `a` strictly precedes `b` in dequeue order: higher priority first, then
/// earlier admission first.
pub open spec fn beats(a: QueueEntry, b: QueueEntry) -> bool {
    ||| a.priority.spec_rank() > b.priority.spec_rank()
    ||| (a.priority.spec_rank() == b.priority.spec_rank() && a.admitted_at < b.admitted_at)
}

/// Index of the entry that `pop` removes from `s[0..n]`: the first entry that
/// no later entry of the prefix strictly beats.
pub open spec fn best_upto(s: Seq<QueueEntry>, n: int) -> int
    recommends
        1 <= n <= s.len(),
    decreases n,
{
    if n <= 1 {
        0
    } else {
        let b = best_upto(s, n - 1);
        if beats(s[n - 1], s[b]) {
            n - 1
        } else {
            b
        }
    }
}

/// The entry `pop` returns on a non-empty queue.
pub open spec fn pop_choice(s: Seq<QueueEntry>) -> QueueEntry
    recommends
        s.len() > 0,
{
    s[best_upto(s, s.len() as int)]
}

/// The chosen index lies in the prefix and no entry of the prefix strictly
/// beats the chosen entry.
pub proof fn lemma_best_upto(s: Seq<QueueEntry>, n: int)
    requires
        1 <= n <= s.len(),
    ensures
        0 <= best_upto(s, n) < n,
        forall|j: int| 0 <= j < n ==> !beats(s[j], s[best_upto(s, n)]),
    decreases n,
{
    if n > 1 {
        lemma_best_upto(s, n - 1);
        let b = best_upto(s, n - 1);
        assert forall|j: int| 0 <= j < n implies !beats(s[j], s[best_upto(s, n)]) by {
            if j < n - 1 {
                assert(!beats(s[j], s[b]));
            }
        }
    }
}

/// Law: dequeue order is priority-descending, then admission-time-ascending,
/// among entries simultaneously present. The popped entry is beaten by no
/// entry still in the queue: every entry present has a lower priority, or an
/// equal priority and no earlier admission time, than the one dequeued.
pub proof fn lemma_pop_order(s: Seq<QueueEntry>)
    requires
        s.len() > 0,
    ensures
        forall|j: int| 0 <= j < s.len() ==> !beats(s[j], pop_choice(s)),
        forall|j: int| 0 <= j < s.len() ==> (
            s[j].priority.spec_rank() < pop_choice(s).priority.spec_rank()
            || (s[j].priority.spec_rank() == pop_choice(s).priority.spec_rank()
                && s[j].admitted_at >= pop_choice(s).admitted_at)
        ),
{
    lemma_best_upto(s, s.len() as int);
    assert forall|j: int| 0 <= j < s.len() implies (
        s[j].priority.spec_rank() < pop_choice(s).priority.spec_rank()
        || (s[j].priority.spec_rank() == pop_choice(s).priority.spec_rank()
            && s[j].admitted_at >= pop_choice(s).admitted_at)
    ) by {
        assert(!beats(s[j], s[best_upto(s, s.len() as int)]));
    }
}

/// Admission-ordered container of jobs ready to be matched.
#[derive(Clone, Debug)]
pub struct PriorityQueue {
    /// Entries in push order.
    pub entries: Vec<QueueEntry>,
}

impl PriorityQueue {
    /// The entries currently present, in push order.
    pub open spec fn view(self) -> Seq<QueueEntry> {
        self.entries@
    }

    /// Create an empty queue.
    pub fn new() -> (q: PriorityQueue)
        ensures
            q@ =~= Seq::<QueueEntry>::empty(),
    {
        PriorityQueue { entries: Vec::new() }
    }

    /// Number of entries present.
    pub fn len(&self) -> (n: usize)
        ensures
            n == self@.len(),
    {
        self.entries.len()
    }

    /// Whether no entry is present.
    pub fn is_empty(&self) -> (r: bool)
        ensures
            r == (self@.len() == 0),
    {
        self.entries.len() == 0
    }

    /// Insert an entry. Re-pushing a previously popped, not-yet-terminal
    /// entry is permitted; the caller passes the original admission
    /// timestamp.
    pub fn push(&mut self, entry: QueueEntry)
        ensures
            final(self)@ =~= old(self)@.push(entry),
    {
        self.entries.push(entry);
    }

    /// Remove and return the entry first in dequeue order: highest priority
    /// first, earliest admission among equal priorities, push order among
    /// full ties. Returns `None` on an empty queue.
    pub fn pop(&mut self) -> (r: Option<QueueEntry>)
        ensures
            old(self)@.len() == 0 ==> r is None && final(self)@ =~= old(self)@,
            old(self)@.len() > 0 ==> {
                &&& r == Some(pop_choice(old(self)@))
                &&& final(self)@ =~= old(self)@.remove(best_upto(old(self)@, old(self)@.len() as int))
                &&& forall|j: int| 0 <= j < final(self)@.len()
                    ==> !beats(#[trigger] final(self)@[j], pop_choice(old(self)@))
            },
    {
        let n = self.entries.len();
        if n == 0 {
            return None;
        }
        let mut best: usize = 0;
        let mut i: usize = 1;
        while i < n
            invariant
                1 <= i <= n,
                n == self.entries.len(),
                0 <= best < i,
                best == best_upto(self.entries@, i as int),
            decreases n - i,
        {
            let cand = &self.entries[i];
            let cur = &self.entries[best];
            let cand_rank = cand.priority.rank();
            let cur_rank = cur.priority.rank();
            if cand_rank > cur_rank
                || (cand_rank == cur_rank && cand.admitted_at < cur.admitted_at)
            {
                best = i;
            }
            i = i + 1;
        }
        proof {
            lemma_best_upto(self.entries@, n as int);
        }
        let entry = self.entries.remove(best);
        proof {
            let olds = old(self)@;
            let b = best_upto(olds, olds.len() as int);
            assert forall|j: int| 0 <= j < final(self)@.len()
                implies !beats(#[trigger] final(self)@[j], pop_choice(olds)) by {
                if j < b {
                    assert(final(self)@[j] == olds[j]);
                } else {
                    assert(final(self)@[j] == olds[j + 1]);
                }
            }
        }
        Some(entry)
    }
}

} // verus!
