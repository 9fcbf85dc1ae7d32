use quartic_r1cs::circuit::PolynomialCircuit;
use quartic_r1cs::field::Fe;
use quartic_r1cs::field::poly_eval;
use quartic_r1cs::r1cs::R1cs;
use quartic_r1cs::r1cs::Var;
use quartic_r1cs::r1cs::ZkError;

fn fe(v: u64) -> Fe {
    Fe::from_u64(v)
}

fn reference_circuit(x: Option<u64>, w: Option<u64>) -> PolynomialCircuit {
    PolynomialCircuit {
        x: x.map(fe),
        w: w.map(fe),
        a: fe(2),
        b: fe(3),
        c: fe(4),
        d: fe(5),
    }
}

#[test]
fn test_poly_eval_reference_relation() {
    assert_eq!(poly_eval(&fe(1), &fe(2), &fe(3), &fe(4), &fe(5)), fe(15));
    assert_eq!(poly_eval(&fe(2), &fe(2), &fe(3), &fe(4), &fe(5)), fe(57));
}

#[test]
fn test_poly_eval_zero_witness() {
    assert_eq!(poly_eval(&fe(0), &fe(2), &fe(3), &fe(4), &fe(5)), fe(5));
}

#[test]
fn test_synthesize_populates_builder() {
    let circuit = reference_circuit(Some(15), Some(1));
    let mut cs = R1cs::new();
    assert_eq!(circuit.synthesize(&mut cs), Ok(()));
    assert_eq!(cs.public_values, vec![fe(1), fe(15)]);
    assert_eq!(cs.private_values, vec![fe(1), fe(1), fe(1), fe(1)]);
    assert_eq!(cs.constraints.len(), 4);
    assert!(cs.is_satisfied());
}

#[test]
fn test_synthesize_witness_powers() {
    let circuit = reference_circuit(Some(57), Some(2));
    let mut cs = R1cs::new();
    assert_eq!(circuit.synthesize(&mut cs), Ok(()));
    assert_eq!(cs.private_values, vec![fe(2), fe(4), fe(8), fe(16)]);
    assert!(cs.is_satisfied());
}

#[test]
fn test_wrong_witness_leaves_constraints_unsatisfied() {
    let circuit = reference_circuit(Some(15), Some(2));
    let mut cs = R1cs::new();
    assert_eq!(circuit.synthesize(&mut cs), Ok(()));
    assert!(!cs.is_satisfied());
}

#[test]
fn test_missing_witness_fails() {
    let circuit = reference_circuit(Some(15), None);
    let mut cs = R1cs::new();
    assert_eq!(circuit.synthesize(&mut cs), Err(ZkError::AssignmentMissing));
    assert_eq!(cs.public_values, vec![fe(1), fe(15)]);
    assert_eq!(cs.private_values.len(), 0);
    assert_eq!(cs.constraints.len(), 0);
}

#[test]
fn test_missing_public_value_fails() {
    let circuit = reference_circuit(None, Some(1));
    let mut cs = R1cs::new();
    assert_eq!(circuit.synthesize(&mut cs), Err(ZkError::AssignmentMissing));
    assert_eq!(cs.public_values, vec![fe(1)]);
    assert_eq!(cs.private_values.len(), 0);
    assert_eq!(cs.constraints.len(), 0);
}

#[test]
fn test_structure_is_deterministic() {
    let c1 = reference_circuit(Some(15), Some(1));
    let c2 = reference_circuit(Some(5), Some(0));
    let mut cs1 = R1cs::new();
    let mut cs2 = R1cs::new();
    assert_eq!(c1.synthesize(&mut cs1), Ok(()));
    assert_eq!(c2.synthesize(&mut cs2), Ok(()));
    assert_eq!(cs1.constraints, cs2.constraints);
    assert_eq!(cs1.public_values.len(), cs2.public_values.len());
    assert_eq!(cs1.private_values.len(), cs2.private_values.len());
}

#[test]
fn test_constant_one_slot() {
    let cs = R1cs::new();
    assert_eq!(cs.one(), Var::Public(0));
    assert_eq!(cs.public_values, vec![fe(1)]);
}

#[test]
fn test_public_inputs_present() {
    let circuit = reference_circuit(Some(15), Some(1));
    assert_eq!(circuit.public_inputs(), Ok(vec![fe(15)]));
}

#[test]
fn test_public_inputs_absent() {
    let circuit = reference_circuit(None, Some(1));
    assert_eq!(circuit.public_inputs(), Err(ZkError::AssignmentMissing));
}

#[test]
fn test_public_input_arity() {
    assert_eq!(PolynomialCircuit::check_public_inputs(&vec![fe(15)]), Ok(()));
    assert_eq!(
        PolynomialCircuit::check_public_inputs(&Vec::new()),
        Err(ZkError::StructuralMismatch)
    );
    assert_eq!(
        PolynomialCircuit::check_public_inputs(&vec![fe(15), fe(15)]),
        Err(ZkError::StructuralMismatch)
    );
}

#[test]
fn test_field_embedding() {
    let x = fe(1234567890123456789);
    let (l0, l1, l2, l3) = x.limbs();
    assert_eq!(l0, 1234567890123456789);
    assert_eq!(l1, 0);
    assert_eq!(l2, 0);
    assert_eq!(l3, 0);
}

#[test]
fn test_poly_eval_zero_coefficients() {
    let z = fe(0);
    assert_eq!(poly_eval(&fe(3), &z, &z, &z, &z), fe(81));
}
