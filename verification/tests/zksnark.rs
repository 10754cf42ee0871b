use ark_bn254::{Bn254, Fr as ArkFr};
use ark_circom::index::NPIndex;
use ark_circom::CircomReduction;
use ark_ec::AffineRepr;
use ark_ff::{BigInteger, PrimeField};
use ark_groth16::Groth16;
use ark_relations::gr1cs::{
    ConstraintSynthesizer, ConstraintSystem, ConstraintSystemRef, LinearCombination,
    OptimizationGoal, SynthesisError, SynthesisMode, Variable, R1CS_PREDICATE_LABEL,
};
use rand::SeedableRng;
use rln::bigint::{to_bigint, BigInt};
use rln::field::Fr;
use rln::protocol::{
    hash_to_field, proof_values_from_witness, rln_witness_from_values, MerkleProof,
    RLNProofValues,
};
use rln::zksnark::{
    calculate_witness_element, generate_proof_with_blinders, generate_proof_with_witness,
    inputs_for_witness_calculation, is_well_formed_proving_key, public_inputs, verify_proof,
    Proof, ProofError, ProvingKey, SynthesisFailure, VerifyingKey,
};

fn to_ark(e: &Fr) -> ArkFr {
    ArkFr::from_le_bytes_mod_order(&e.to_bytes_le())
}

fn sample_values() -> RLNProofValues {
    let proof = MerkleProof::new(
        vec![hash_to_field(b"sibling 0"), hash_to_field(b"sibling 1")],
        vec![1, 0],
    )
    .unwrap();
    let witness = rln_witness_from_values(
        hash_to_field(b"secret"),
        &proof,
        hash_to_field(b"signal"),
        hash_to_field(b"epoch"),
    );
    proof_values_from_witness(&witness)
}

/// A circuit with the six public inputs of RLN, each copied to a witness.
struct SixInputs {
    values: [ArkFr; 6],
}

impl ConstraintSynthesizer<ArkFr> for SixInputs {
    fn generate_constraints(self, cs: ConstraintSystemRef<ArkFr>) -> Result<(), SynthesisError> {
        for v in self.values {
            let input = cs.new_input_variable(|| Ok(v))?;
            let copy = cs.new_witness_variable(|| Ok(v))?;
            cs.enforce_r1cs_constraint(
                || LinearCombination::from(copy),
                || LinearCombination::from(Variable::One),
                || LinearCombination::from(input),
            )?;
        }
        Ok(())
    }
}

fn circuit_of(values: &RLNProofValues) -> SixInputs {
    SixInputs {
        values: [
            to_ark(&values.y),
            to_ark(&values.root),
            to_ark(&values.nullifier),
            to_ark(&values.x),
            to_ark(&values.epoch),
            to_ark(&values.rln_identifier),
        ],
    }
}

/// The keys of the circuit and the full assignment for the given values.
fn keys_and_assignment(values: &RLNProofValues) -> (ProvingKey, VerifyingKey, Vec<BigInt>) {
    let mut rng = rand::rngs::StdRng::seed_from_u64(7);
    let key = Groth16::<Bn254, CircomReduction>::generate_random_parameters_with_reduction(
        circuit_of(values),
        &mut rng,
    )
    .unwrap();

    let cs = ConstraintSystem::<ArkFr>::new_ref();
    cs.set_optimization_goal(OptimizationGoal::Constraints);
    cs.set_mode(SynthesisMode::Prove { construct_matrices: true, generate_lc_assignments: false });
    circuit_of(values).generate_constraints(cs.clone()).unwrap();
    cs.finalize();
    let matrices = cs.to_matrices().unwrap()[R1CS_PREDICATE_LABEL].clone();
    let non_zero = |m: &Vec<Vec<(ArkFr, usize)>>| m.iter().map(|row| row.len()).sum();
    let index = NPIndex {
        num_instance_variables: cs.num_instance_variables(),
        num_witness_variables: cs.num_witness_variables(),
        num_constraints: cs.num_constraints(),
        a_num_non_zero: non_zero(&matrices[0]),
        b_num_non_zero: non_zero(&matrices[1]),
        c_num_non_zero: non_zero(&matrices[2]),
        a: matrices[0].clone(),
        b: matrices[1].clone(),
        c: matrices[2].clone(),
    };
    let mut assignment = cs.instance_assignment().unwrap();
    assignment.extend(cs.witness_assignment().unwrap());
    let witness = assignment
        .iter()
        .map(|v| BigInt::from_bytes_le(false, v.into_bigint().to_bytes_le()))
        .collect();
    let verifying_key = VerifyingKey { key: key.vk.clone() };
    (ProvingKey { key, matrices: index }, verifying_key, witness)
}

#[test]
fn proof_of_the_witness_verifies_against_its_values() {
    let values = sample_values();
    let (proving_key, verifying_key, witness) = keys_and_assignment(&values);
    let proof = generate_proof_with_witness(witness, &proving_key).unwrap();
    assert!(matches!(verify_proof(&verifying_key, &proof, &values), Ok(true)));
}

#[test]
fn verifier_rejects_a_tampered_y() {
    let values = sample_values();
    let (proving_key, verifying_key, witness) = keys_and_assignment(&values);
    let proof = generate_proof_with_witness(witness, &proving_key).unwrap();

    let mut y_bytes = values.y.to_bytes_le();
    y_bytes[0] ^= 1;
    let mut tampered = values;
    tampered.y = Fr::from_le_bytes_mod_order(&y_bytes);
    assert_ne!(tampered.y, values.y);
    assert!(matches!(verify_proof(&verifying_key, &proof, &tampered), Ok(false)));
}

#[test]
fn verifier_rejects_every_mutated_public_input() {
    let values = sample_values();
    let (proving_key, verifying_key, witness) = keys_and_assignment(&values);
    let proof = generate_proof_with_witness(witness, &proving_key).unwrap();
    let one = Fr::from_u64(1);

    let mut v = values;
    v.root = v.root.add(&one);
    assert!(matches!(verify_proof(&verifying_key, &proof, &v), Ok(false)));
    let mut v = values;
    v.nullifier = v.nullifier.add(&one);
    assert!(matches!(verify_proof(&verifying_key, &proof, &v), Ok(false)));
    let mut v = values;
    v.x = v.x.add(&one);
    assert!(matches!(verify_proof(&verifying_key, &proof, &v), Ok(false)));
    let mut v = values;
    v.epoch = v.epoch.add(&one);
    assert!(matches!(verify_proof(&verifying_key, &proof, &v), Ok(false)));
    let mut v = values;
    v.rln_identifier = v.rln_identifier.add(&one);
    assert!(matches!(verify_proof(&verifying_key, &proof, &v), Ok(false)));
    // two inputs exchanged
    let mut v = values;
    v.y = values.root;
    v.root = values.y;
    assert!(matches!(verify_proof(&verifying_key, &proof, &v), Ok(false)));
}

#[test]
fn two_proofs_of_one_witness_differ() {
    let values = sample_values();
    let (proving_key, verifying_key, witness) = keys_and_assignment(&values);
    let (_, _, witness_again) = keys_and_assignment(&values);
    let first = generate_proof_with_witness(witness, &proving_key).unwrap();
    let second = generate_proof_with_witness(witness_again, &proving_key).unwrap();
    assert_ne!(first, second);
    assert!(matches!(verify_proof(&verifying_key, &second, &values), Ok(true)));
}

#[test]
fn assignment_of_the_wrong_length_is_a_witness_error() {
    let values = sample_values();
    let (proving_key, _, mut witness) = keys_and_assignment(&values);
    witness.pop();
    let r = generate_proof_with_witness(witness, &proving_key);
    assert!(matches!(r, Err(ProofError::WitnessError(_))));
    let r = generate_proof_with_witness(Vec::new(), &proving_key);
    assert!(matches!(r, Err(ProofError::WitnessError(_))));
}

#[test]
fn key_for_another_number_of_inputs_is_a_synthesis_error() {
    let values = sample_values();
    let (_, verifying_key, _) = keys_and_assignment(&values);
    let proof = Proof { inner: ark_groth16::Proof::<Bn254>::default() };

    let mut short = verifying_key.key.clone();
    short.gamma_abc_g1.pop();
    let r = verify_proof(&VerifyingKey { key: short }, &proof, &values);
    assert!(matches!(
        r,
        Err(ProofError::SynthesisError(SynthesisFailure::MalformedVerifyingKey))
    ));

    let mut long = verifying_key.key.clone();
    long.gamma_abc_g1.push(ark_bn254::G1Affine::generator());
    let r = verify_proof(&VerifyingKey { key: long }, &proof, &values);
    assert!(matches!(
        r,
        Err(ProofError::SynthesisError(SynthesisFailure::MalformedVerifyingKey))
    ));

    let empty = ark_groth16::VerifyingKey::<Bn254>::default();
    let r = verify_proof(&VerifyingKey { key: empty }, &proof, &values);
    assert!(matches!(
        r,
        Err(ProofError::SynthesisError(SynthesisFailure::MalformedVerifyingKey))
    ));
}

#[test]
fn proof_that_was_not_made_for_the_key_is_false_and_no_error() {
    let values = sample_values();
    let (_, verifying_key, _) = keys_and_assignment(&values);
    let proof = Proof { inner: ark_groth16::Proof::<Bn254>::default() };
    assert!(matches!(verify_proof(&verifying_key, &proof, &values), Ok(false)));
}

#[test]
fn public_inputs_are_in_circuit_order() {
    let values = sample_values();
    let inputs = public_inputs(&values);
    assert_eq!(
        inputs,
        vec![
            values.y,
            values.root,
            values.nullifier,
            values.x,
            values.epoch,
            values.rln_identifier
        ]
    );
}

#[test]
fn witness_calculator_inputs_are_named_and_ordered() {
    let path = vec![hash_to_field(b"sibling 0"), hash_to_field(b"sibling 1")];
    let proof = MerkleProof::new(path.clone(), vec![1, 0]).unwrap();
    let secret = hash_to_field(b"secret");
    let x = hash_to_field(b"signal");
    let epoch = hash_to_field(b"epoch");
    let witness = rln_witness_from_values(secret, &proof, x, epoch);
    let inputs = inputs_for_witness_calculation(&witness);

    let names: Vec<&str> = inputs.iter().map(|(name, _)| *name).collect();
    assert_eq!(
        names,
        vec!["identity_secret", "path_elements", "identity_path_index", "x", "epoch", "rln_identifier"]
    );
    let texts: Vec<Vec<String>> = inputs
        .iter()
        .map(|(_, values)| values.iter().map(|v| v.to_str_radix_10()).collect())
        .collect();
    let decimal = |e: &Fr| to_bigint(e).to_str_radix_10();
    assert_eq!(texts[0], vec![decimal(&secret)]);
    assert_eq!(texts[1], vec![decimal(&path[0]), decimal(&path[1])]);
    assert_eq!(texts[2], vec!["1".to_string(), "0".to_string()]);
    assert_eq!(texts[3], vec![decimal(&x)]);
    assert_eq!(texts[4], vec![decimal(&epoch)]);
    assert_eq!(texts[5], vec![decimal(&witness.rln_identifier())]);
}

#[test]
fn negative_assignments_wrap_around_the_modulus() {
    // p, little-endian
    let p: Vec<u8> = vec![
        0x01, 0x00, 0x00, 0xf0, 0x93, 0xf5, 0xe1, 0x43, 0x91, 0x70, 0xb9, 0x79, 0x48, 0xe8, 0x33,
        0x28, 0x5d, 0x58, 0x81, 0x81, 0xb6, 0x45, 0x50, 0xb8, 0x29, 0xa0, 0x31, 0xe1, 0x72, 0x4e,
        0x64, 0x30,
    ];
    let mut p_plus_five = p.clone();
    p_plus_five[0] += 5;
    let witness = vec![
        BigInt::from_bytes_le(false, vec![7]),
        BigInt::from_bytes_le(true, vec![1]),
        BigInt::from_bytes_le(true, p.clone()),
        BigInt::from_bytes_le(false, p.clone()),
        BigInt::from_bytes_le(true, p_plus_five.clone()),
        BigInt::from_bytes_le(false, p_plus_five),
        BigInt::from_bytes_le(true, vec![0, 0]),
    ];
    let elements = calculate_witness_element(witness);
    let zero = Fr::zero();
    assert_eq!(elements.len(), 7);
    assert_eq!(elements[0], Fr::from_u64(7));
    assert_eq!(elements[1], zero.sub(&Fr::from_u64(1)));
    assert_eq!(elements[2], zero);
    assert_eq!(elements[3], zero);
    assert_eq!(elements[4], zero.sub(&Fr::from_u64(5)));
    assert_eq!(elements[5], Fr::from_u64(5));
    assert_eq!(elements[6], zero);
    assert_eq!(
        to_bigint(&elements[1]).to_str_radix_10(),
        "21888242871839275222246405745257275088548364400416034343698204186575808495616"
    );
}

#[test]
fn proof_with_a_point_off_its_curve_is_a_synthesis_error() {
    let values = sample_values();
    let (_, verifying_key, _) = keys_and_assignment(&values);
    let zero = ark_bn254::Fq::from(0u64);
    let one = ark_bn254::Fq::from(1u64);
    // (0, 1) lies on neither curve and is not the point at infinity
    let mut inner = ark_groth16::Proof::<Bn254>::default();
    inner.a = ark_bn254::G1Affine::new_unchecked(zero, one);
    inner.b = ark_bn254::G2Affine::new_unchecked(
        ark_bn254::Fq2::new(zero, zero),
        ark_bn254::Fq2::new(one, zero),
    );
    let r = verify_proof(&verifying_key, &Proof { inner }, &values);
    assert!(matches!(r, Err(ProofError::SynthesisError(SynthesisFailure::MalformedProof))));

    let mut inner = ark_groth16::Proof::<Bn254>::default();
    inner.c = ark_bn254::G1Affine::new_unchecked(one, one);
    let r = verify_proof(&verifying_key, &Proof { inner }, &values);
    assert!(matches!(r, Err(ProofError::SynthesisError(SynthesisFailure::MalformedProof))));
}

#[test]
fn verifying_key_with_a_point_off_its_curve_is_a_synthesis_error() {
    let values = sample_values();
    let (_, verifying_key, _) = keys_and_assignment(&values);
    let proof = Proof { inner: ark_groth16::Proof::<Bn254>::default() };
    let zero = ark_bn254::Fq::from(0u64);
    let one = ark_bn254::Fq::from(1u64);

    let mut key = verifying_key.key.clone();
    key.alpha_g1 = ark_bn254::G1Affine::new_unchecked(zero, one);
    let r = verify_proof(&VerifyingKey { key }, &proof, &values);
    assert!(matches!(
        r,
        Err(ProofError::SynthesisError(SynthesisFailure::MalformedVerifyingKey))
    ));

    let mut key = verifying_key.key.clone();
    key.gamma_abc_g1[3] = ark_bn254::G1Affine::new_unchecked(one, one);
    let r = verify_proof(&VerifyingKey { key }, &proof, &values);
    assert!(matches!(
        r,
        Err(ProofError::SynthesisError(SynthesisFailure::MalformedVerifyingKey))
    ));
}

fn expect_malformed_proving_key(proving_key: &ProvingKey, witness: Vec<BigInt>) {
    assert!(!is_well_formed_proving_key(proving_key));
    let r = generate_proof_with_witness(witness, proving_key);
    assert!(matches!(
        r,
        Err(ProofError::SynthesisError(SynthesisFailure::MalformedProvingKey))
    ));
}

#[test]
fn proving_key_without_a_first_query_element_is_a_synthesis_error() {
    let values = sample_values();
    let (mut proving_key, _, _) = keys_and_assignment(&values);
    assert!(is_well_formed_proving_key(&proving_key));
    let a_query = std::mem::take(&mut proving_key.key.a_query);
    let (_, _, witness) = keys_and_assignment(&values);
    expect_malformed_proving_key(&proving_key, witness);
    proving_key.key.a_query = a_query;
    assert!(is_well_formed_proving_key(&proving_key));

    let b_g1_query = std::mem::take(&mut proving_key.key.b_g1_query);
    let (_, _, witness) = keys_and_assignment(&values);
    expect_malformed_proving_key(&proving_key, witness);
    proving_key.key.b_g1_query = b_g1_query;

    proving_key.key.b_g2_query.clear();
    let (_, _, witness) = keys_and_assignment(&values);
    expect_malformed_proving_key(&proving_key, witness);
}

#[test]
fn matrices_that_name_a_variable_beyond_the_circuit_are_a_synthesis_error() {
    let values = sample_values();
    let (mut proving_key, _, witness) = keys_and_assignment(&values);
    let variables = witness.len();
    let coefficient = proving_key.matrices.a[0][0].0;
    proving_key.matrices.a[0].push((coefficient, variables));
    expect_malformed_proving_key(&proving_key, witness);
    proving_key.matrices.a[0].pop();
    assert!(is_well_formed_proving_key(&proving_key));

    proving_key.matrices.b[1].push((coefficient, usize::MAX));
    let (_, _, witness) = keys_and_assignment(&values);
    expect_malformed_proving_key(&proving_key, witness);
    proving_key.matrices.b[1].pop();

    // a row too few
    let row = proving_key.matrices.a.pop().unwrap();
    let (_, _, witness) = keys_and_assignment(&values);
    expect_malformed_proving_key(&proving_key, witness);
    proving_key.matrices.a.push(row);
    proving_key.matrices.b.push(Vec::new());
    let (_, _, witness) = keys_and_assignment(&values);
    expect_malformed_proving_key(&proving_key, witness);
}

#[test]
fn matrices_with_counts_that_do_not_add_up_are_a_synthesis_error() {
    let values = sample_values();
    let (mut proving_key, _, witness) = keys_and_assignment(&values);
    let instance_variables = proving_key.matrices.num_instance_variables;
    proving_key.matrices.num_instance_variables = 0;
    expect_malformed_proving_key(&proving_key, witness);
    proving_key.matrices.num_instance_variables = 1000;
    let (_, _, witness) = keys_and_assignment(&values);
    expect_malformed_proving_key(&proving_key, witness);
    proving_key.matrices.num_instance_variables = instance_variables;

    for constraints in [usize::MAX, usize::MAX / 2, 1 << 40, 0] {
        proving_key.matrices.num_constraints = constraints;
        let (_, _, witness) = keys_and_assignment(&values);
        expect_malformed_proving_key(&proving_key, witness);
    }
}

#[test]
fn variables_are_counted_by_the_key() {
    // a key file may count one witness variable too many; the queries of
    // the key say how many variables there are
    let values = sample_values();
    let (mut proving_key, verifying_key, witness) = keys_and_assignment(&values);
    assert_eq!(proving_key.key.a_query.len(), witness.len());
    proving_key.matrices.num_witness_variables += 1;
    assert!(is_well_formed_proving_key(&proving_key));
    let proof = generate_proof_with_witness(witness, &proving_key).unwrap();
    assert!(matches!(verify_proof(&verifying_key, &proof, &values), Ok(true)));
}

#[test]
fn proof_is_a_function_of_the_assignment_and_the_blinders() {
    let values = sample_values();
    let (proving_key, verifying_key, witness) = keys_and_assignment(&values);
    let (_, _, witness_again) = keys_and_assignment(&values);
    let (_, _, witness_third) = keys_and_assignment(&values);
    let r = Fr::from_u64(11);
    let s = Fr::from_u64(12);
    let first = generate_proof_with_blinders(witness, &proving_key, &r, &s).unwrap();
    let second = generate_proof_with_blinders(witness_again, &proving_key, &r, &s).unwrap();
    let third = generate_proof_with_blinders(witness_third, &proving_key, &s, &r).unwrap();
    assert_eq!(first, second);
    assert_ne!(first, third);
    assert!(matches!(verify_proof(&verifying_key, &first, &values), Ok(true)));
    assert!(matches!(verify_proof(&verifying_key, &third, &values), Ok(true)));
}

#[test]
fn proof_of_another_assignment_does_not_verify() {
    let values = sample_values();
    let (proving_key, verifying_key, mut witness) = keys_and_assignment(&values);
    // the copy of the first public input no longer equals the input
    let last = witness.len() - 6;
    witness[last] = BigInt::from_bytes_le(false, vec![1]);
    let r = Fr::from_u64(11);
    let s = Fr::from_u64(12);
    let proof = generate_proof_with_blinders(witness, &proving_key, &r, &s).unwrap();
    assert!(matches!(verify_proof(&verifying_key, &proof, &values), Ok(false)));
}
