//! Problem Hamiltonians for the variational workloads the scheduler carries.
//!
//! A Hamiltonian is a sum of weighted Pauli strings. Coefficients are held in
//! fixed point, in ten-thousandths of a Hartree, so the model is exact and
//! the numerics stay with the evaluation layer that consumes it.

use vstd::prelude::*;

verus! {

/// One single-qubit Pauli operator.
#[derive(Clone, Copy, Debug, PartialEq, Eq, Structural)]
pub enum Pauli {
    I,
    X,
    Y,
    Z,
}

/// One weighted Pauli string: a coefficient (in ten-thousandths of a Hartree)
/// and the non-identity operators by qubit index.
#[derive(Clone, Debug)]
pub struct PauliTerm {
    /// Coefficient, in ten-thousandths of a Hartree.
    pub coefficient: i64,
    /// The operators, as (qubit index, operator) pairs.
    pub operators: Vec<(usize, Pauli)>,
}

impl PauliTerm {
    /// A term with arbitrary operators.
    pub fn new(coefficient: i64, operators: Vec<(usize, Pauli)>) -> (r: PauliTerm)
        ensures
            r.coefficient == coefficient,
            r.operators@ =~= operators@,
    {
        PauliTerm { coefficient, operators }
    }

    /// The identity term.
    pub fn identity(coefficient: i64) -> (r: PauliTerm)
        ensures
            r.coefficient == coefficient,
            r.operators@ =~= Seq::<(usize, Pauli)>::empty(),
    {
        PauliTerm { coefficient, operators: Vec::new() }
    }

    /// A single-qubit `Z` term.
    pub fn z(coefficient: i64, qubit: usize) -> (r: PauliTerm)
        ensures
            r.coefficient == coefficient,
            r.operators@ =~= seq![(qubit, Pauli::Z)],
    {
        let mut operators: Vec<(usize, Pauli)> = Vec::new();
        operators.push((qubit, Pauli::Z));
        PauliTerm { coefficient, operators }
    }

    /// A two-qubit `ZZ` term.
    pub fn zz(coefficient: i64, q0: usize, q1: usize) -> (r: PauliTerm)
        ensures
            r.coefficient == coefficient,
            r.operators@ =~= seq![(q0, Pauli::Z), (q1, Pauli::Z)],
    {
        let mut operators: Vec<(usize, Pauli)> = Vec::new();
        operators.push((q0, Pauli::Z));
        operators.push((q1, Pauli::Z));
        PauliTerm { coefficient, operators }
    }

    /// A two-qubit `XX` term.
    pub fn xx(coefficient: i64, q0: usize, q1: usize) -> (r: PauliTerm)
        ensures
            r.coefficient == coefficient,
            r.operators@ =~= seq![(q0, Pauli::X), (q1, Pauli::X)],
    {
        let mut operators: Vec<(usize, Pauli)> = Vec::new();
        operators.push((q0, Pauli::X));
        operators.push((q1, Pauli::X));
        PauliTerm { coefficient, operators }
    }

    /// A two-qubit `YY` term.
    pub fn yy(coefficient: i64, q0: usize, q1: usize) -> (r: PauliTerm)
        ensures
            r.coefficient == coefficient,
            r.operators@ =~= seq![(q0, Pauli::Y), (q1, Pauli::Y)],
    {
        let mut operators: Vec<(usize, Pauli)> = Vec::new();
        operators.push((q0, Pauli::Y));
        operators.push((q1, Pauli::Y));
        PauliTerm { coefficient, operators }
    }
}

/// The width a term demands: one past its highest qubit index.
pub open spec fn term_width(ops: Seq<(usize, Pauli)>) -> int
    decreases ops.len(),
{
    if ops.len() == 0 {
        0
    } else {
        let rest = term_width(ops.drop_last());
        if ops.last().0 + 1 > rest {
            ops.last().0 + 1
        } else {
            rest
        }
    }
}

/// The width the first `n` terms demand.
pub open spec fn ham_width(terms: Seq<PauliTerm>, n: int) -> int
    recommends
        n <= terms.len(),
    decreases n,
{
    if n <= 0 {
        0
    } else {
        let rest = ham_width(terms, n - 1);
        let w = term_width(terms[n - 1].operators@);
        if w > rest {
            w
        } else {
            rest
        }
    }
}

/// The coefficient of the first identity term at or after `k`, or zero.
pub open spec fn ident_coeff_from(terms: Seq<PauliTerm>, k: int) -> int
    recommends
        0 <= k,
    decreases terms.len() - k,
{
    if k < 0 || k >= terms.len() {
        0
    } else if terms[k].operators@.len() == 0 {
        terms[k].coefficient as int
    } else {
        ident_coeff_from(terms, k + 1)
    }
}

/// A Hamiltonian: a sum of weighted Pauli strings.
#[derive(Clone, Debug)]
pub struct PauliHamiltonian {
    /// The terms of the sum.
    pub terms: Vec<PauliTerm>,
}

impl PauliHamiltonian {
    /// The number of qubits the Hamiltonian acts on.
    pub open spec fn spec_num_qubits(self) -> int {
        ham_width(self.terms@, self.terms@.len() as int)
    }

    /// The coefficient of the identity term (zero when there is none).
    pub open spec fn spec_identity_coefficient(self) -> int {
        ident_coeff_from(self.terms@, 0)
    }

    /// Build a Hamiltonian from its terms.
    pub fn new(terms: Vec<PauliTerm>) -> (r: PauliHamiltonian)
        ensures
            r.terms@ =~= terms@,
    {
        PauliHamiltonian { terms }
    }

    /// The number of terms in the sum.
    pub fn num_terms(&self) -> (n: usize)
        ensures
            n == self.terms@.len(),
    {
        self.terms.len()
    }

    /// The number of qubits the Hamiltonian acts on: one past the highest
    /// qubit index any term touches.
    pub fn num_qubits(&self) -> (n: usize)
        requires
            self.spec_num_qubits() <= usize::MAX,
        ensures
            n == self.spec_num_qubits(),
    {
        let tn = self.terms.len();
        let mut width: usize = 0;
        let mut i: usize = 0;
        while i < tn
            invariant
                0 <= i <= tn,
                tn == self.terms@.len(),
                width == ham_width(self.terms@, i as int),
                ham_width(self.terms@, i as int) <= self.spec_num_qubits() <= usize::MAX,
            decreases tn - i,
        {
            let ops = &self.terms[i].operators;
            let on = ops.len();
            let mut w: usize = 0;
            let mut k: usize = 0;
            while k < on
                invariant
                    0 <= k <= on,
                    i < tn,
                    tn == self.terms@.len(),
                    on == self.terms@[i as int].operators@.len(),
                    ops == &self.terms@[i as int].operators,
                    w == term_width(self.terms@[i as int].operators@.subrange(0, k as int)),
                    term_width(self.terms@[i as int].operators@.subrange(0, k as int))
                        <= self.spec_num_qubits(),
                decreases on - k,
            {
                proof {
                    let opsv = self.terms@[i as int].operators@;
                    lemma_term_width_step(opsv, k as int);
                    lemma_term_width_monotonic(opsv, (k + 1) as int, opsv.len() as int);
                    assert(opsv.subrange(0, opsv.len() as int) =~= opsv);
                    lemma_ham_width_monotonic(self.terms@, i as int + 1, self.terms@.len() as int);
                    assert(ham_width(self.terms@, i as int + 1) >= term_width(opsv));
                }
                let q = ops[k].0;
                if q + 1 > w {
                    w = q + 1;
                }
                k = k + 1;
            }
            proof {
                assert(self.terms@[i as int].operators@.subrange(
                    0,
                    self.terms@[i as int].operators@.len() as int,
                ) =~= self.terms@[i as int].operators@);
            }
            if w > width {
                width = w;
            }
            i = i + 1;
        }
        width
    }

    /// The coefficient of the first identity term, in ten-thousandths of a
    /// Hartree; zero when the sum has no identity term.
    pub fn identity_coefficient(&self) -> (c: i64)
        ensures
            c as int == self.spec_identity_coefficient(),
    {
        let tn = self.terms.len();
        let mut i: usize = 0;
        while i < tn
            invariant
                0 <= i <= tn,
                tn == self.terms@.len(),
                ident_coeff_from(self.terms@, 0) == ident_coeff_from(self.terms@, i as int),
            decreases tn - i,
        {
            if self.terms[i].operators.len() == 0 {
                return self.terms[i].coefficient;
            }
            i = i + 1;
        }
        0
    }
}

/// The width of an operator prefix grows by at most the new operator.
proof fn lemma_term_width_step(ops: Seq<(usize, Pauli)>, k: int)
    requires
        0 <= k < ops.len(),
    ensures
        term_width(ops.subrange(0, k + 1)) == if ops[k].0 + 1 > term_width(ops.subrange(0, k)) {
            ops[k].0 + 1
        } else {
            term_width(ops.subrange(0, k))
        },
{
    let a = ops.subrange(0, k + 1);
    assert(a.drop_last() =~= ops.subrange(0, k));
    assert(a.last() == ops[k]);
}

/// A longer operator prefix never demands fewer qubits.
proof fn lemma_term_width_monotonic(ops: Seq<(usize, Pauli)>, k: int, n: int)
    requires
        0 <= k <= n <= ops.len(),
    ensures
        term_width(ops.subrange(0, k)) <= term_width(ops.subrange(0, n)),
    decreases n - k,
{
    if k < n {
        lemma_term_width_monotonic(ops, k, n - 1);
        let a = ops.subrange(0, n);
        assert(a.drop_last() =~= ops.subrange(0, n - 1));
    }
}

/// More terms never demand fewer qubits.
proof fn lemma_ham_width_monotonic(terms: Seq<PauliTerm>, k: int, n: int)
    requires
        0 <= k <= n <= terms.len(),
    ensures
        ham_width(terms, k) <= ham_width(terms, n),
    decreases n - k,
{
    if k < n {
        lemma_ham_width_monotonic(terms, k, n - 1);
    }
}

/// H2 molecule Hamiltonian at equilibrium bond distance (0.735 Angstrom), in
/// the minimal basis: two qubits, six terms. Coefficients in ten-thousandths
/// of a Hartree; the identity coefficient stands for -1.0523.
pub fn h2_hamiltonian() -> (r: PauliHamiltonian)
    ensures
        r.terms@.len() == 6,
        r.spec_identity_coefficient() == -10523,
        r.terms@[0].coefficient == -10523 && r.terms@[0].operators@.len() == 0,
        r.terms@[1].coefficient == 3979 && r.terms@[1].operators@ =~= seq![(0usize, Pauli::Z)],
        r.terms@[2].coefficient == -3979 && r.terms@[2].operators@ =~= seq![(1usize, Pauli::Z)],
        r.terms@[3].coefficient == -112
            && r.terms@[3].operators@ =~= seq![(0usize, Pauli::Z), (1usize, Pauli::Z)],
        r.terms@[4].coefficient == 1809
            && r.terms@[4].operators@ =~= seq![(0usize, Pauli::X), (1usize, Pauli::X)],
        r.terms@[5].coefficient == 1809
            && r.terms@[5].operators@ =~= seq![(0usize, Pauli::Y), (1usize, Pauli::Y)],
        r.spec_num_qubits() == 2,
    {
    let mut terms: Vec<PauliTerm> = Vec::new();
    terms.push(PauliTerm::identity(-10523));
    terms.push(PauliTerm::z(3979, 0));
    terms.push(PauliTerm::z(-3979, 1));
    terms.push(PauliTerm::zz(-112, 0, 1));
    terms.push(PauliTerm::xx(1809, 0, 1));
    terms.push(PauliTerm::yy(1809, 0, 1));
    let r = PauliHamiltonian::new(terms);
    proof {
        reveal_with_fuel(ham_width, 17);
        reveal_with_fuel(term_width, 6);
    }
    r
}

/// H2 molecule Hamiltonian in the full four-qubit encoding: all
/// spin-orbitals, fifteen terms. The identity coefficient stands for
/// -0.8105 Hartree.
pub fn h2_hamiltonian_4q() -> (r: PauliHamiltonian)
    ensures
        r.terms@.len() == 15,
        r.spec_identity_coefficient() == -8105,
        r.spec_num_qubits() == 4,
    {
    let mut terms: Vec<PauliTerm> = Vec::new();
    terms.push(PauliTerm::identity(-8105));
    terms.push(PauliTerm::z(1721, 0));
    terms.push(PauliTerm::z(1721, 1));
    terms.push(PauliTerm::z(-2234, 2));
    terms.push(PauliTerm::z(-2234, 3));
    terms.push(PauliTerm::zz(1209, 0, 1));
    terms.push(PauliTerm::zz(1686, 0, 2));
    terms.push(PauliTerm::zz(1205, 0, 3));
    terms.push(PauliTerm::zz(1205, 1, 2));
    terms.push(PauliTerm::zz(1686, 1, 3));
    terms.push(PauliTerm::zz(1744, 2, 3));
    let mut ops1: Vec<(usize, Pauli)> = Vec::new();
    ops1.push((0, Pauli::X));
    ops1.push((1, Pauli::X));
    ops1.push((2, Pauli::Y));
    ops1.push((3, Pauli::Y));
    terms.push(PauliTerm::new(453, ops1));
    let mut ops2: Vec<(usize, Pauli)> = Vec::new();
    ops2.push((0, Pauli::Y));
    ops2.push((1, Pauli::Y));
    ops2.push((2, Pauli::X));
    ops2.push((3, Pauli::X));
    terms.push(PauliTerm::new(453, ops2));
    let mut ops3: Vec<(usize, Pauli)> = Vec::new();
    ops3.push((0, Pauli::X));
    ops3.push((1, Pauli::Y));
    ops3.push((2, Pauli::Y));
    ops3.push((3, Pauli::X));
    terms.push(PauliTerm::new(-453, ops3));
    let mut ops4: Vec<(usize, Pauli)> = Vec::new();
    ops4.push((0, Pauli::Y));
    ops4.push((1, Pauli::X));
    ops4.push((2, Pauli::X));
    ops4.push((3, Pauli::Y));
    terms.push(PauliTerm::new(-453, ops4));
    let r = PauliHamiltonian::new(terms);
    proof {
        reveal_with_fuel(ham_width, 17);
        reveal_with_fuel(term_width, 6);
    }
    r
}

/// LiH molecule Hamiltonian at equilibrium geometry, reduced to four qubits:
/// fifteen terms. The identity coefficient stands for -7.4983 Hartree.
pub fn lih_hamiltonian() -> (r: PauliHamiltonian)
    ensures
        r.terms@.len() == 15,
        r.spec_identity_coefficient() == -74983,
        r.spec_num_qubits() == 4,
    {
    let mut terms: Vec<PauliTerm> = Vec::new();
    terms.push(PauliTerm::identity(-74983));
    terms.push(PauliTerm::z(1122, 0));
    terms.push(PauliTerm::z(1122, 1));
    terms.push(PauliTerm::z(-1347, 2));
    terms.push(PauliTerm::z(-1347, 3));
    terms.push(PauliTerm::zz(892, 0, 1));
    terms.push(PauliTerm::zz(1104, 0, 2));
    terms.push(PauliTerm::zz(983, 0, 3));
    terms.push(PauliTerm::zz(983, 1, 2));
    terms.push(PauliTerm::zz(1104, 1, 3));
    terms.push(PauliTerm::zz(1205, 2, 3));
    terms.push(PauliTerm::xx(312, 0, 1));
    terms.push(PauliTerm::yy(312, 0, 1));
    terms.push(PauliTerm::xx(245, 2, 3));
    terms.push(PauliTerm::yy(245, 2, 3));
    let r = PauliHamiltonian::new(terms);
    proof {
        reveal_with_fuel(ham_width, 17);
        reveal_with_fuel(term_width, 6);
    }
    r
}

} // verus!
