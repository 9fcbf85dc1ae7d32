use bellman_ce::bn256::Bn256;
use bellman_ce::bn256::Fr;
use bellman_ce::bn256::FrRepr;
use bellman_ce::groth16::create_random_proof;
use bellman_ce::groth16::generate_random_parameters;
use bellman_ce::groth16::prepare_verifying_key;
use bellman_ce::groth16::verify_proof;
use bellman_ce::pairing::ff::PrimeField;
use bellman_ce::Circuit;
use bellman_ce::ConstraintSystem;
use bellman_ce::LinearCombination;
use bellman_ce::SynthesisError;
use bellman_ce::Variable;

use quartic_r1cs::circuit::PolynomialCircuit;
use quartic_r1cs::field::Fe;
use quartic_r1cs::r1cs::LinComb;
use quartic_r1cs::r1cs::R1cs;
use quartic_r1cs::r1cs::Var;

fn fe(v: u64) -> Fe {
    Fe::from_u64(v)
}

fn fe_to_fr(v: &Fe) -> Fr {
    let (l0, l1, l2, l3) = v.limbs();
    Fr::from_repr(FrRepr([l0, l1, l2, l3])).expect("canonical representative")
}

fn reference_circuit(x: u64, w: u64) -> PolynomialCircuit {
    PolynomialCircuit {
        x: Some(fe(x)),
        w: Some(fe(w)),
        a: fe(2),
        b: fe(3),
        c: fe(4),
        d: fe(5),
    }
}

/// Replays the library's synthesized constraint trace into a bellman
/// constraint system, so the external prover consumes exactly the verified
/// allocations and constraints.
struct Bridge {
    inner: PolynomialCircuit,
}

fn add_terms(
    mut lc: LinearCombination<Bn256>,
    terms: &LinComb,
    inputs: &[Variable],
    auxs: &[Variable],
) -> LinearCombination<Bn256> {
    for t in terms.terms.iter() {
        let coeff = fe_to_fr(&t.coeff);
        let var = match t.var {
            Var::Public(i) => inputs[i],
            Var::Private(i) => auxs[i],
        };
        lc = lc + (coeff, var);
    }
    lc
}

impl Circuit<Bn256> for Bridge {
    fn synthesize<CS: ConstraintSystem<Bn256>>(self, cs: &mut CS) -> Result<(), SynthesisError> {
        let mut builder = R1cs::new();
        self.inner
            .synthesize(&mut builder)
            .map_err(|_| SynthesisError::AssignmentMissing)?;
        let mut inputs = vec![CS::one()];
        for (i, v) in builder.public_values.iter().enumerate().skip(1) {
            let val = fe_to_fr(v);
            inputs.push(cs.alloc_input(|| format!("input {}", i), || Ok(val))?);
        }
        let mut auxs = Vec::new();
        for (i, v) in builder.private_values.iter().enumerate() {
            let val = fe_to_fr(v);
            auxs.push(cs.alloc(|| format!("aux {}", i), || Ok(val))?);
        }
        for (k, con) in builder.constraints.iter().enumerate() {
            cs.enforce(
                || format!("constraint {}", k),
                |lc| add_terms(lc, &con.left, &inputs, &auxs),
                |lc| add_terms(lc, &con.right, &inputs, &auxs),
                |lc| add_terms(lc, &con.output, &inputs, &auxs),
            );
        }
        Ok(())
    }
}

#[test]
fn test_groth16_accepts_valid_proof() {
    let mut rng = rand::thread_rng();
    let circuit = reference_circuit(15, 1);
    let params = generate_random_parameters::<Bn256, _, _>(Bridge { inner: circuit }, &mut rng)
        .expect("setup");
    let pvk = prepare_verifying_key(&params.vk);
    let prf = create_random_proof(Bridge { inner: circuit }, &params, &mut rng).expect("prove");
    let public_inputs = vec![fe_to_fr(&fe(15))];
    assert_eq!(verify_proof(&pvk, &prf, &public_inputs).expect("verify"), true);
}

#[test]
fn test_groth16_rejects_wrong_witness() {
    let mut rng = rand::thread_rng();
    let circuit = reference_circuit(15, 1);
    let params = generate_random_parameters::<Bn256, _, _>(Bridge { inner: circuit }, &mut rng)
        .expect("setup");
    let pvk = prepare_verifying_key(&params.vk);
    // The same claimed public value, but a witness whose polynomial value is
    // 57, not 15: the proof must verify to false, not error.
    let bad = reference_circuit(15, 2);
    let prf = create_random_proof(Bridge { inner: bad }, &params, &mut rng).expect("prove");
    let public_inputs = vec![fe_to_fr(&fe(15))];
    assert_eq!(verify_proof(&pvk, &prf, &public_inputs).expect("verify"), false);
}

#[test]
fn test_groth16_keys_reusable_across_witnesses() {
    let mut rng = rand::thread_rng();
    let params =
        generate_random_parameters::<Bn256, _, _>(Bridge { inner: reference_circuit(15, 1) }, &mut rng)
            .expect("setup");
    let pvk = prepare_verifying_key(&params.vk);
    // Keys from one compilation prove a different satisfying pair: w = 0
    // gives x = d = 5.
    let other = reference_circuit(5, 0);
    let prf = create_random_proof(Bridge { inner: other }, &params, &mut rng).expect("prove");
    let public_inputs = vec![fe_to_fr(&fe(5))];
    assert_eq!(verify_proof(&pvk, &prf, &public_inputs).expect("verify"), true);
}

#[test]
fn test_groth16_arity_mismatch_is_error() {
    let mut rng = rand::thread_rng();
    let circuit = reference_circuit(15, 1);
    let params = generate_random_parameters::<Bn256, _, _>(Bridge { inner: circuit }, &mut rng)
        .expect("setup");
    let pvk = prepare_verifying_key(&params.vk);
    let prf = create_random_proof(Bridge { inner: circuit }, &params, &mut rng).expect("prove");
    let none: Vec<Fr> = Vec::new();
    assert!(verify_proof(&pvk, &prf, &none).is_err());
    let two = vec![fe_to_fr(&fe(15)), fe_to_fr(&fe(15))];
    assert!(verify_proof(&pvk, &prf, &two).is_err());
}

#[test]
fn test_groth16_missing_witness_fails_proving() {
    let mut rng = rand::thread_rng();
    let circuit = reference_circuit(15, 1);
    let params = generate_random_parameters::<Bn256, _, _>(Bridge { inner: circuit }, &mut rng)
        .expect("setup");
    let absent = PolynomialCircuit {
        x: Some(fe(15)),
        w: None,
        a: fe(2),
        b: fe(3),
        c: fe(4),
        d: fe(5),
    };
    assert!(create_random_proof(Bridge { inner: absent }, &params, &mut rng).is_err());
}
