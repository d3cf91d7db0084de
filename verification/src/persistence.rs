//! Durable state store model: versioned, keyed job snapshots.
//!
//! `put` is atomic: a reader never observes a record with a version older
//! than any write that has returned, and never a torn write. On process
//! start the scheduler calls `list_active` once to rebuild its in-memory
//! queue and in-flight set; the store runs no background logic of its own.
//!
//! The [`StateStore`] trait is the capability boundary: anything satisfying
//! `{put, get, list_active, delete}` with these contracts can stand behind
//! the scheduler. [`MemStore`] is the verified in-memory form and the model
//! that durable forms kept by the surrounding application mirror.

use vstd::prelude::*;

use crate::job::ScheduledJob;
use crate::job::ScheduledJobId;

verus! {

/// The store's unit of durability: a job snapshot with an update counter.
#[derive(Clone, Debug)]
pub struct StoredJob {
    /// The job snapshot.
    pub job: ScheduledJob,
    /// Update counter: 1 on first write, bumped by every overwrite.
    pub version: u64,
}

/// The version counter after one more write (saturating at the top).
pub open spec fn spec_bump(v: u64) -> u64 {
    if v == u64::MAX {
        v
    } else {
        (v + 1) as u64
    }
}

/// Record ids are pairwise distinct.
pub open spec fn unique_ids(s: Seq<StoredJob>) -> bool {
    forall|i: int, j: int|
        0 <= i < s.len() && 0 <= j < s.len() && i != j
        ==> #[trigger] s[i].job.id != #[trigger] s[j].job.id
}

/// Whether a record with this id is present.
pub open spec fn has_record(s: Seq<StoredJob>, id: ScheduledJobId) -> bool {
    exists|i: int| 0 <= i < s.len() && #[trigger] s[i].job.id == id
}

/// Index of the record with this id.
pub open spec fn record_index(s: Seq<StoredJob>, id: ScheduledJobId) -> int {
    choose|i: int| 0 <= i < s.len() && #[trigger] s[i].job.id == id
}

/// The snapshots of the records with a non-terminal status among the first
/// `n`, in record order: what `list_active` returns.
pub open spec fn active_seq(s: Seq<StoredJob>, n: int) -> Seq<ScheduledJob>
    recommends
        n <= s.len(),
    decreases n,
{
    if n <= 0 {
        Seq::empty()
    } else if !s[n - 1].job.status.spec_is_terminal() {
        active_seq(s, n - 1).push(s[n - 1].job)
    } else {
        active_seq(s, n - 1)
    }
}

/// Durable, crash-recoverable persistence of job records: the capability the
/// scheduler relies on, with atomic, versioned writes.
pub trait StateStore: Sized {
    /// The records currently stored, in insertion order.
    spec fn spec_records(&self) -> Seq<StoredJob>;

    /// The store's internal invariant: record ids are unique.
    open spec fn inv(&self) -> bool {
        unique_ids(self.spec_records())
    }

    /// Write a snapshot atomically: a fresh id is appended with version 1, a
    /// present id is overwritten in place with its version bumped.
    fn put(&mut self, job: ScheduledJob)
        requires
            old(self).inv(),
        ensures
            final(self).inv(),
            !has_record(old(self).spec_records(), job.id) ==> final(self).spec_records()
                =~= old(self).spec_records().push(StoredJob { job, version: 1 }),
            has_record(old(self).spec_records(), job.id) ==> {
                let i = record_index(old(self).spec_records(), job.id);
                final(self).spec_records() =~= old(self).spec_records().update(i, StoredJob {
                    job,
                    version: spec_bump(old(self).spec_records()[i].version),
                })
            },
    ;

    /// Read the snapshot stored under `id`, if any.
    fn get(&self, id: ScheduledJobId) -> (r: Option<ScheduledJob>)
        requires
            self.inv(),
        ensures
            r is Some <==> has_record(self.spec_records(), id),
            r matches Some(job) ==> job
                == self.spec_records()[record_index(self.spec_records(), id)].job,
    ;

    /// Read the update counter stored under `id`, if any.
    fn version_of(&self, id: ScheduledJobId) -> (r: Option<u64>)
        requires
            self.inv(),
        ensures
            r is Some <==> has_record(self.spec_records(), id),
            r matches Some(v) ==> v
                == self.spec_records()[record_index(self.spec_records(), id)].version,
    ;

    /// Remove the record stored under `id`. Returns whether one was removed.
    fn delete(&mut self, id: ScheduledJobId) -> (r: bool)
        requires
            old(self).inv(),
        ensures
            final(self).inv(),
            r <==> has_record(old(self).spec_records(), id),
            r ==> final(self).spec_records() =~= old(self).spec_records().remove(
                record_index(old(self).spec_records(), id),
            ),
            !r ==> final(self).spec_records() =~= old(self).spec_records(),
    ;

    /// The snapshots whose status is non-terminal, in record order, without
    /// touching terminal records: the sole recovery input.
    fn list_active(&self) -> (r: Vec<ScheduledJob>)
        requires
            self.inv(),
        ensures
            r@ =~= active_seq(self.spec_records(), self.spec_records().len() as int),
    ;
}

/// With unique ids, the record index is the one witness of presence.
pub proof fn lemma_record_index(s: Seq<StoredJob>, id: ScheduledJobId)
    requires
        unique_ids(s),
        has_record(s, id),
    ensures
        0 <= record_index(s, id) < s.len(),
        s[record_index(s, id)].job.id == id,
        forall|i: int| 0 <= i < s.len() && #[trigger] s[i].job.id == id ==> i == record_index(s, id),
{
    let r = record_index(s, id);
    assert forall|i: int| 0 <= i < s.len() && #[trigger] s[i].job.id == id implies i == r by {}
}

/// Appending a record with a fresh id keeps ids unique, leaves every other
/// record where it was, and files the new one at the end.
pub proof fn lemma_push_fresh(s: Seq<StoredJob>, rec: StoredJob)
    requires
        unique_ids(s),
        !has_record(s, rec.job.id),
    ensures
        unique_ids(s.push(rec)),
        has_record(s.push(rec), rec.job.id),
        record_index(s.push(rec), rec.job.id) == s.len(),
        forall|id: ScheduledJobId| id != rec.job.id
            ==> (#[trigger] has_record(s.push(rec), id) <==> has_record(s, id)),
        forall|id: ScheduledJobId| id != rec.job.id && has_record(s, id)
            ==> #[trigger] record_index(s.push(rec), id) == record_index(s, id),
{
    let t = s.push(rec);
    assert(t[s.len() as int].job.id == rec.job.id);
    assert forall|i: int, j: int| 0 <= i < t.len() && 0 <= j < t.len() && i != j
        implies #[trigger] t[i].job.id != #[trigger] t[j].job.id by {
        if i < s.len() && j < s.len() {
        } else if i == s.len() as int {
            assert(t[j].job.id == s[j].job.id);
        } else {
            assert(t[i].job.id == s[i].job.id);
        }
    }
    lemma_record_index(t, rec.job.id);
    assert forall|id: ScheduledJobId| id != rec.job.id
        implies (#[trigger] has_record(t, id) <==> has_record(s, id)) by {
        if has_record(s, id) {
            let i = record_index(s, id);
            lemma_record_index(s, id);
            assert(t[i].job.id == id);
        }
        if has_record(t, id) {
            let i = choose|i: int| 0 <= i < t.len() && #[trigger] t[i].job.id == id;
            assert(i < s.len());
            assert(s[i].job.id == id);
        }
    }
    assert forall|id: ScheduledJobId| id != rec.job.id && has_record(s, id)
        implies #[trigger] record_index(t, id) == record_index(s, id) by {
        lemma_record_index(s, id);
        let i = record_index(s, id);
        assert(t[i].job.id == id);
        lemma_record_index(t, id);
    }
}

/// Overwriting a record in place with the same id keeps ids unique and every
/// record's presence and index unchanged.
pub proof fn lemma_update_same_id(s: Seq<StoredJob>, i: int, rec: StoredJob)
    requires
        unique_ids(s),
        0 <= i < s.len(),
        rec.job.id == s[i].job.id,
    ensures
        unique_ids(s.update(i, rec)),
        forall|id: ScheduledJobId|
            #[trigger] has_record(s.update(i, rec), id) <==> has_record(s, id),
        forall|id: ScheduledJobId| has_record(s, id)
            ==> #[trigger] record_index(s.update(i, rec), id) == record_index(s, id),
{
    let t = s.update(i, rec);
    assert forall|i2: int, j2: int| 0 <= i2 < t.len() && 0 <= j2 < t.len() && i2 != j2
        implies #[trigger] t[i2].job.id != #[trigger] t[j2].job.id by {
        assert(t[i2].job.id == s[i2].job.id);
        assert(t[j2].job.id == s[j2].job.id);
    }
    assert forall|id: ScheduledJobId| #[trigger] has_record(t, id) <==> has_record(s, id) by {
        if has_record(s, id) {
            let j = choose|j: int| 0 <= j < s.len() && #[trigger] s[j].job.id == id;
            assert(t[j].job.id == id);
        }
        if has_record(t, id) {
            let j = choose|j: int| 0 <= j < t.len() && #[trigger] t[j].job.id == id;
            assert(s[j].job.id == id);
        }
    }
    assert forall|id: ScheduledJobId| has_record(s, id)
        implies #[trigger] record_index(t, id) == record_index(s, id) by {
        lemma_record_index(s, id);
        let j = record_index(s, id);
        assert(t[j].job.id == id);
        lemma_record_index(t, id);
    }
}

/// The in-memory store: the verified model of the durability contract.
#[derive(Clone, Debug)]
pub struct MemStore {
    /// The records, in insertion order.
    pub records: Vec<StoredJob>,
}

impl MemStore {
    /// Create an empty store.
    pub fn new() -> (s: MemStore)
        ensures
            s.inv(),
            s.spec_records().len() == 0,
    {
        MemStore { records: Vec::new() }
    }

    /// Find the index of the record with this id.
    fn find(&self, id: ScheduledJobId) -> (r: Option<usize>)
        requires
            self.inv(),
        ensures
            r matches Some(i) ==> i < self.records@.len() && self.records@[i as int].job.id == id
                && i as int == record_index(self.records@, id),
            r is None <==> !has_record(self.records@, id),
    {
        let n = self.records.len();
        let mut i: usize = 0;
        while i < n
            invariant
                0 <= i <= n,
                forall|j: int| 0 <= j < i ==> #[trigger] self.records@[j].job.id != id,
            decreases n - i,
        {
            if self.records[i].job.id == id {
                proof {
                    assert forall|j: int|
                        0 <= j < self.records@.len() && #[trigger] self.records@[j].job.id == id
                        implies j == i as int by {}
                }
                return Some(i);
            }
            i = i + 1;
        }
        None
    }
}

impl StateStore for MemStore {
    open spec fn spec_records(&self) -> Seq<StoredJob> {
        self.records@
    }

    fn put(&mut self, job: ScheduledJob) {
        match self.find(job.id) {
            Some(i) => {
                let v = self.records[i].version;
                let bumped = if v == u64::MAX {
                    v
                } else {
                    v + 1
                };
                self.records[i] = StoredJob { job, version: bumped };
            },
            None => {
                self.records.push(StoredJob { job, version: 1 });
            },
        }
    }

    fn get(&self, id: ScheduledJobId) -> (r: Option<ScheduledJob>) {
        match self.find(id) {
            Some(i) => Some(self.records[i].job.clone()),
            None => None,
        }
    }

    fn version_of(&self, id: ScheduledJobId) -> (r: Option<u64>) {
        match self.find(id) {
            Some(i) => Some(self.records[i].version),
            None => None,
        }
    }

    fn delete(&mut self, id: ScheduledJobId) -> (r: bool) {
        match self.find(id) {
            Some(i) => {
                self.records.remove(i);
                true
            },
            None => false,
        }
    }

    fn list_active(&self) -> (r: Vec<ScheduledJob>) {
        let n = self.records.len();
        let mut out: Vec<ScheduledJob> = Vec::new();
        let mut i: usize = 0;
        while i < n
            invariant
                0 <= i <= n,
                out@ =~= active_seq(self.records@, i as int),
            decreases n - i,
        {
            let rec = &self.records[i];
            if !rec.job.status.is_terminal() {
                out.push(rec.job.clone());
            }
            i = i + 1;
        }
        out
    }
}

} // verus!
