//! Resource matcher: scores job requirements against backend descriptors.
//!
//! The matcher filters the descriptors to those satisfying every predicate of
//! the requirement and picks the best of the remainder: topology exact-match
//! preferred over a compatible superset, then tightest-fit capacity (least
//! wasted capacity), then lowest backend id for reproducibility. It holds no
//! state: it is a pure function of its inputs, and no match is not an error
//! but a normal queued state retried on the next scheduling tick.

use vstd::prelude::*;

use crate::job::ResourceRequirements;
use crate::job::TopologyClass;

verus! {

/// A backend's advertised capacity, topology class and availability, supplied
/// by an external registry and re-read each scheduling tick.
#[derive(Clone, Copy, Debug, PartialEq, Eq, Structural)]
pub struct BackendDescriptor {
    /// Stable backend id, the final tie-breaking key.
    pub id: u64,
    /// Advertised qubit capacity.
    pub capacity: u64,
    /// Advertised topology class.
    pub topology: TopologyClass,
    /// Whether the backend currently accepts work.
    pub available: bool,
}

/// The chosen backend and the quantities it was scored by.
#[derive(Clone, Copy, Debug, PartialEq, Eq, Structural)]
pub struct MatchResult {
    /// Id of the chosen backend.
    pub backend_id: u64,
    /// Capacity beyond the requirement's lower bound; lower scored better.
    pub wasted_capacity: u64,
    /// Whether the backend's topology matched the preference exactly.
    pub exact_topology: bool,
}

/// Whether descriptor `d` satisfies every predicate of `req`: available,
/// enough capacity, a satisfying topology, and the pinned backend if any.
pub open spec fn spec_satisfies(req: ResourceRequirements, d: BackendDescriptor) -> bool {
    &&& d.available
    &&& d.capacity >= req.min_qubits
    &&& req.topology.spec_satisfied_by(d.topology)
    &&& (req.backend_pin matches Some(p) ==> d.id == p)
}

/// Strict preference between two satisfying descriptors: exact topology match
/// first, then least wasted capacity, then lowest id.
pub open spec fn spec_better(req: ResourceRequirements, a: BackendDescriptor, b: BackendDescriptor) -> bool {
    let ea = req.topology.spec_exact_match(a.topology);
    let eb = req.topology.spec_exact_match(b.topology);
    ||| (ea && !eb)
    ||| (ea == eb && a.capacity < b.capacity)
    ||| (ea == eb && a.capacity == b.capacity && a.id < b.id)
}

/// Index of the matcher's choice among `s[0..n]`, or `-1` when no descriptor
/// of the prefix satisfies `req`. The first of equally preferred descriptors
/// is kept.
pub open spec fn match_upto(req: ResourceRequirements, s: Seq<BackendDescriptor>, n: int) -> int
    recommends
        n <= s.len(),
    decreases n,
{
    if n <= 0 {
        -1
    } else {
        let b = match_upto(req, s, n - 1);
        if !spec_satisfies(req, s[n - 1]) {
            b
        } else if b == -1 || spec_better(req, s[n - 1], s[b]) {
            n - 1
        } else {
            b
        }
    }
}

/// The choice is a satisfying descriptor that no other satisfying descriptor
/// of the prefix strictly beats, and it exists exactly when some descriptor
/// of the prefix satisfies the requirement.
pub proof fn lemma_match_upto(req: ResourceRequirements, s: Seq<BackendDescriptor>, n: int)
    requires
        0 <= n <= s.len(),
    ensures
        match_upto(req, s, n) == -1 <==> (forall|j: int| 0 <= j < n ==> !spec_satisfies(req, s[j])),
        match_upto(req, s, n) != -1 ==> {
            let b = match_upto(req, s, n);
            &&& 0 <= b < n
            &&& spec_satisfies(req, s[b])
            &&& forall|j: int| 0 <= j < n && spec_satisfies(req, #[trigger] s[j])
                ==> !spec_better(req, s[j], s[b])
        },
    decreases n,
{
    if n > 0 {
        lemma_match_upto(req, s, n - 1);
        let prev = match_upto(req, s, n - 1);
        let b = match_upto(req, s, n);
        if b != -1 {
            assert forall|j: int| 0 <= j < n && spec_satisfies(req, #[trigger] s[j])
                implies !spec_better(req, s[j], s[b]) by {
                if j < n - 1 {
                    assert(!spec_better(req, s[j], s[prev]));
                }
            }
        }
    }
}

/// Law: the matcher's filter is sound. Whenever a match is produced for a
/// requirement against a snapshot of descriptors, the chosen backend
/// satisfies every predicate of the requirement: it is available, its
/// capacity covers the bound, its topology satisfies the preference, and it
/// honours the pin.
pub proof fn lemma_match_sound(req: ResourceRequirements, s: Seq<BackendDescriptor>)
    requires
        match_upto(req, s, s.len() as int) != -1,
    ensures
        spec_satisfies(req, s[match_upto(req, s, s.len() as int)]),
{
    lemma_match_upto(req, s, s.len() as int);
}

/// The resource matcher. It holds no mutable state across calls.
pub struct ResourceMatcher;

impl ResourceMatcher {
    /// Match a requirement against a snapshot of backend descriptors.
    ///
    /// Returns `None` exactly when no descriptor satisfies the requirement
    /// (the job then stays queued for the next tick). Otherwise returns the
    /// deterministic best match: exact topology preferred, then least wasted
    /// capacity, then lowest backend id.
    pub fn match_job(req: &ResourceRequirements, descriptors: &Vec<BackendDescriptor>) -> (r: Option<
        MatchResult,
    >)
        ensures
            r is Some <==> exists|j: int|
                0 <= j < descriptors@.len() && spec_satisfies(*req, #[trigger] descriptors@[j]),
            r matches Some(m) ==> {
                let b = match_upto(*req, descriptors@, descriptors@.len() as int);
                let d = descriptors@[b];
                &&& 0 <= b < descriptors@.len()
                &&& spec_satisfies(*req, d)
                &&& m.backend_id == d.id
                &&& m.wasted_capacity == d.capacity - req.min_qubits
                &&& m.exact_topology == req.topology.spec_exact_match(d.topology)
            },
    {
        let ghost s = descriptors@;
        let n = descriptors.len();
        let mut best: usize = 0;
        let mut found = false;
        let mut i: usize = 0;
        while i < n
            invariant
                0 <= i <= n,
                n == s.len(),
                s == descriptors@,
                !found ==> match_upto(*req, s, i as int) == -1,
                found ==> best < i && match_upto(*req, s, i as int) == best as int,
            decreases n - i,
        {
            let d = &descriptors[i];
            let ok = d.available
                && d.capacity >= req.min_qubits
                && req.topology.satisfied_by(d.topology)
                && (match req.backend_pin {
                    Some(p) => d.id == p,
                    None => true,
                });
            if ok {
                if !found {
                    best = i;
                    found = true;
                } else {
                    let cur = &descriptors[best];
                    let ec = req.topology.exact_match(cur.topology);
                    let ed = req.topology.exact_match(d.topology);
                    if (ed && !ec)
                        || (ed == ec && d.capacity < cur.capacity)
                        || (ed == ec && d.capacity == cur.capacity && d.id < cur.id)
                    {
                        best = i;
                    }
                }
            }
            i = i + 1;
        }
        proof {
            lemma_match_upto(*req, s, n as int);
        }
        if found {
            let d = &descriptors[best];
            Some(MatchResult {
                backend_id: d.id,
                wasted_capacity: d.capacity - req.min_qubits,
                exact_topology: req.topology.exact_match(d.topology),
            })
        } else {
            None
        }
    }
}

} // verus!
