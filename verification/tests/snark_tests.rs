use r1cs_core::field::Fp;
use r1cs_core::relations::{ConstraintRecorder, ConstraintSynthesizer, ConstraintSystem};
use r1cs_core::snark::{
    CircuitSpecificSetupSNARK, ToBytes, UniversalSetupIndexResult, UniversalSetupSNARK, SNARK,
};
use r1cs_core::toy::{BitCircuit, StepRng, ToyBound, ToySnark};
use r1cs_core::index::Index;
use r1cs_core::lc::ConstraintVar;
use r1cs_core::relations::SynthesisError;
use r1cs_core::snark::SNARKError;
use r1cs_core::toy::OptionalBitCircuit;

fn fp_vec(values: &[u64]) -> Vec<Fp> {
    values.iter().map(|v| Fp::new(*v)).collect()
}

fn bit_circuit(inputs: &[u64], bits: &[u64]) -> BitCircuit {
    BitCircuit { inputs: fp_vec(inputs), bits: fp_vec(bits) }
}

#[test]
fn recorder_counts_and_indices() {
    let mut cs: ConstraintRecorder<Fp> = ConstraintRecorder::new();
    let a = cs.alloc_input(Fp::new(3));
    let b = cs.alloc_aux(Fp::new(4));
    let c = cs.alloc_input(Fp::new(5));
    assert_eq!(a.get_unchecked(), Index::Input(0));
    assert_eq!(b.get_unchecked(), Index::Aux(0));
    assert_eq!(c.get_unchecked(), Index::Input(1));
    assert_eq!(cs.num_inputs(), 2);
    assert_eq!(cs.num_aux(), 1);
    assert_eq!(cs.num_constraints(), 0);
    cs.enter_scope("booleanity");
    cs.enforce(ConstraintVar::from_var(b), ConstraintVar::from_var(b), ConstraintVar::from_var(b));
    cs.exit_scope();
    assert_eq!(cs.num_constraints(), 1);
    assert_eq!(cs.inputs, fp_vec(&[3, 5]));
}

#[test]
fn bit_circuit_populates_sink() {
    let circuit = bit_circuit(&[1, 2, 3], &[0, 1]);
    let mut cs: ConstraintRecorder<Fp> = ConstraintRecorder::new();
    assert!(circuit.generate_constraints(&mut cs).is_ok());
    assert_eq!(cs.num_inputs(), 3);
    assert_eq!(cs.num_aux(), 2);
    assert_eq!(cs.num_constraints(), 2);
}

#[test]
fn honest_proof_verifies_both_ways() {
    let mut rng = StepRng { state: 7 };
    let (pk, vk) = ToySnark::setup(bit_circuit(&[5, 6], &[1]), &mut rng).unwrap();
    let proof = ToySnark::prove(&pk, bit_circuit(&[5, 6], &[1]), &mut rng).unwrap();
    let statement = fp_vec(&[5, 6]);
    assert_eq!(ToySnark::verify(&vk, &statement, &proof).unwrap(), true);
    let pvk = ToySnark::process_vk(&vk).unwrap();
    assert_eq!(ToySnark::verify_with_processed_vk(&pvk, &statement, &proof).unwrap(), true);
}

#[test]
fn wrong_statement_fails_both_ways() {
    let mut rng = StepRng { state: 99 };
    let (pk, vk) = ToySnark::circuit_specific_setup(bit_circuit(&[5, 6], &[]), &mut rng).unwrap();
    let proof = ToySnark::prove(&pk, bit_circuit(&[5, 6], &[]), &mut rng).unwrap();
    let wrong = fp_vec(&[5, 7]);
    let direct = ToySnark::verify(&vk, &wrong, &proof).unwrap();
    let pvk = ToySnark::process_vk(&vk).unwrap();
    let processed = ToySnark::verify_with_processed_vk(&pvk, &wrong, &proof).unwrap();
    assert_eq!(direct, false);
    assert_eq!(processed, false);
    assert_eq!(direct, processed);
}

#[test]
fn foreign_key_fails_verification() {
    let mut rng = StepRng { state: 1 };
    let (pk, _vk) = ToySnark::setup(bit_circuit(&[9], &[]), &mut rng).unwrap();
    let (_pk2, vk2) = ToySnark::setup(bit_circuit(&[9], &[]), &mut rng).unwrap();
    let proof = ToySnark::prove(&pk, bit_circuit(&[9], &[]), &mut rng).unwrap();
    let statement = fp_vec(&[9]);
    assert_eq!(ToySnark::verify(&vk2, &statement, &proof).unwrap(), false);
}

#[test]
fn verifying_key_has_canonical_bytes() {
    let mut rng = StepRng { state: 13 };
    let (_pk, vk) = ToySnark::setup(bit_circuit(&[], &[]), &mut rng).unwrap();
    let bytes = vk.to_bytes();
    assert_eq!(bytes.len(), 8);
    let mut value: u64 = 0;
    for (k, b) in bytes.iter().enumerate() {
        value |= (*b as u64) << (8 * k as u32);
    }
    assert_eq!(value, vk.tag);
}

#[test]
fn universal_setup_records_bound() {
    let mut rng = StepRng { state: 3 };
    let bound = ToyBound { max_constraints: 4 };
    let pp = ToySnark::universal_setup(&bound, &mut rng).unwrap();
    assert_eq!(pp.bound, bound);
    assert_eq!(ToyBound::default().max_constraints, 0);
}

#[test]
fn undersized_parameters_report_required_bound() {
    let mut rng = StepRng { state: 21 };
    // three bit constraints, but parameters sized for one
    let small = ToySnark::universal_setup(&ToyBound { max_constraints: 1 }, &mut rng).unwrap();
    let outcome = ToySnark::index(&small, bit_circuit(&[4], &[0, 1, 1]), &mut rng).unwrap();
    let needed = match outcome {
        UniversalSetupIndexResult::NeedLargerBound(b) => b,
        UniversalSetupIndexResult::Successful(_) => {
            panic!("parameters below the requirement must not index")
        },
    };
    assert_eq!(needed.max_constraints, 3);

    // rerunning the setup with the reported bound makes indexing succeed
    let grown = ToySnark::universal_setup(&needed, &mut rng).unwrap();
    match ToySnark::index(&grown, bit_circuit(&[4], &[0, 1, 1]), &mut rng).unwrap() {
        UniversalSetupIndexResult::Successful((pk, vk)) => assert_eq!(pk.tag, vk.tag),
        UniversalSetupIndexResult::NeedLargerBound(_) => {
            panic!("parameters at the requirement must index")
        },
    }
}

#[test]
fn sized_parameters_index_immediately() {
    let mut rng = StepRng { state: 5 };
    let pp = ToySnark::universal_setup(&ToyBound { max_constraints: 2 }, &mut rng).unwrap();
    match ToySnark::index(&pp, bit_circuit(&[1, 2], &[1, 0]), &mut rng).unwrap() {
        UniversalSetupIndexResult::Successful((pk, vk)) => assert_eq!(pk.tag, vk.tag),
        UniversalSetupIndexResult::NeedLargerBound(_) => {
            panic!("parameters at the requirement must index")
        },
    }
}

#[test]
fn missing_witness_is_a_synthesis_error() {
    let mut rng = StepRng { state: 11 };
    let broken = OptionalBitCircuit { input: Fp::new(4), bit: None };
    let outcome = ToySnark::circuit_specific_setup(broken, &mut rng);
    assert_eq!(outcome.unwrap_err(), SNARKError::Synthesis(SynthesisError::AssignmentMissing));

    let complete = OptionalBitCircuit { input: Fp::new(4), bit: Some(Fp::new(1)) };
    let (pk, vk) = ToySnark::setup(complete, &mut rng).unwrap();
    let broken_again = OptionalBitCircuit { input: Fp::new(4), bit: None };
    let prove_outcome = ToySnark::prove(&pk, broken_again, &mut rng);
    assert_eq!(
        prove_outcome.unwrap_err(),
        SNARKError::Synthesis(SynthesisError::AssignmentMissing)
    );

    let pp = ToySnark::universal_setup(&ToyBound { max_constraints: 8 }, &mut rng).unwrap();
    let broken_index = OptionalBitCircuit { input: Fp::new(4), bit: None };
    let index_outcome = ToySnark::index(&pp, broken_index, &mut rng);
    assert!(index_outcome.is_err());

    let complete_again = OptionalBitCircuit { input: Fp::new(4), bit: Some(Fp::new(0)) };
    let proof = ToySnark::prove(&pk, complete_again, &mut rng).unwrap();
    assert_eq!(ToySnark::verify(&vk, &fp_vec(&[4]), &proof).unwrap(), true);
}
