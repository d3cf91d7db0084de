use hiq::problems::{h2_hamiltonian, h2_hamiltonian_4q, lih_hamiltonian, Pauli, PauliHamiltonian, PauliTerm};
use hiq::qaoa::num_parameters;
use hiq::vqe::VqeRunner;

/// Coefficients are held in ten-thousandths of a Hartree.
fn to_hartree(fixed: i64) -> f64 {
    fixed as f64 * 1e-4
}

#[test]
fn test_num_parameters() {
    assert_eq!(num_parameters(1), 2);
    assert_eq!(num_parameters(3), 6);
}

#[test]
fn test_h2_hamiltonian() {
    let h = h2_hamiltonian();
    assert_eq!(h.num_qubits(), 2);
    assert_eq!(h.num_terms(), 6);

    // Check identity coefficient
    assert!((to_hartree(h.identity_coefficient()) - (-1.0523)).abs() < 1e-4);
}

#[test]
fn test_h2_4q_hamiltonian() {
    let h = h2_hamiltonian_4q();
    assert_eq!(h.num_qubits(), 4);
    assert!(h.num_terms() > 10);
}

#[test]
fn test_lih_hamiltonian() {
    let h = lih_hamiltonian();
    assert_eq!(h.num_qubits(), 4);
}

#[test]
fn test_vqe_runner_creation() {
    let h = h2_hamiltonian();
    let runner = VqeRunner::new(h).with_reps(2).with_maxiter(10);

    assert_eq!(runner.n_qubits, 2);
    assert_eq!(runner.reps, 2);
    assert_eq!(runner.maxiter, 10);
}

#[test]
fn test_vqe_runner_parameters() {
    let h = h2_hamiltonian();
    let runner = VqeRunner::new(h).with_reps(3).with_shots(512);
    assert_eq!(runner.shots, 512);
    // One rotation per qubit in each of reps + 1 layers.
    assert_eq!(runner.num_parameters(), 8);
}

#[test]
fn test_hamiltonian_width_and_identity() {
    let empty = PauliHamiltonian::new(vec![]);
    assert_eq!(empty.num_qubits(), 0);
    assert_eq!(empty.num_terms(), 0);
    assert_eq!(empty.identity_coefficient(), 0);

    let h = PauliHamiltonian::new(vec![
        PauliTerm::z(5, 0),
        PauliTerm::new(3, vec![(6, Pauli::X)]),
        PauliTerm::identity(-42),
    ]);
    assert_eq!(h.num_qubits(), 7);
    assert_eq!(h.identity_coefficient(), -42);
}
