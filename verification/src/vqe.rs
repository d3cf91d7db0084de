//! Configuration of a variational eigensolver run: the workload description
//! that jobs of this kind carry.
//!
//! The ansatz is a two-local circuit of single-qubit rotation layers and
//! entangling layers: each of `reps + 1` rotation layers holds one parameter
//! per qubit. The numerics of an actual run live with the evaluation layer;
//! this model fixes the shape of the work.

use vstd::prelude::*;

use crate::problems::PauliHamiltonian;

verus! {

/// Configuration of a variational eigensolver run.
#[derive(Clone, Debug)]
pub struct VqeRunner {
    /// The Hamiltonian to minimize.
    pub hamiltonian: PauliHamiltonian,
    /// Number of qubits.
    pub n_qubits: usize,
    /// Number of ansatz repetitions.
    pub reps: usize,
    /// Number of measurement shots per evaluation.
    pub shots: u32,
    /// Maximum optimization iterations.
    pub maxiter: usize,
}

impl VqeRunner {
    /// Create a runner for a Hamiltonian, with two ansatz repetitions, 1024
    /// shots and at most 100 iterations.
    pub fn new(hamiltonian: PauliHamiltonian) -> (r: VqeRunner)
        requires
            hamiltonian.spec_num_qubits() <= usize::MAX,
        ensures
            r.hamiltonian == hamiltonian,
            r.n_qubits == hamiltonian.spec_num_qubits(),
            r.reps == 2,
            r.shots == 1024,
            r.maxiter == 100,
    {
        let n_qubits = hamiltonian.num_qubits();
        VqeRunner { hamiltonian, n_qubits, reps: 2, shots: 1024, maxiter: 100 }
    }

    /// Set the number of ansatz repetitions.
    pub fn with_reps(self, reps: usize) -> (r: VqeRunner)
        ensures
            r == (VqeRunner { reps, ..self }),
    {
        VqeRunner { reps, ..self }
    }

    /// Set the number of shots.
    pub fn with_shots(self, shots: u32) -> (r: VqeRunner)
        ensures
            r == (VqeRunner { shots, ..self }),
    {
        VqeRunner { shots, ..self }
    }

    /// Set maximum iterations.
    pub fn with_maxiter(self, maxiter: usize) -> (r: VqeRunner)
        ensures
            r == (VqeRunner { maxiter, ..self }),
    {
        VqeRunner { maxiter, ..self }
    }

    /// The number of parameters the two-local ansatz needs: one rotation per
    /// qubit in each of `reps + 1` rotation layers.
    pub fn num_parameters(&self) -> (n: usize)
        requires
            (self.reps + 1) * self.n_qubits <= usize::MAX,
        ensures
            n == (self.reps + 1) * self.n_qubits,
    {
        if self.n_qubits == 0 {
            return 0;
        }
        proof {
            assert((self.reps + 1) as int <= (self.reps + 1) * self.n_qubits) by (nonlinear_arith)
                requires
                    self.n_qubits >= 1,
                    self.reps >= 0,
            {}
        }
        (self.reps + 1) * self.n_qubits
    }
}

} // verus!
