//! The bridge to the Groth16 proving system: the named inputs of the witness
//! calculator, the conversion of its full assignment to field elements, proof
//! generation and proof verification.
//!
//! Keys and proofs are values of `ark-groth16` over BN254.  This library
//! carries them through without looking inside; it decides what is handed to
//! the proving system and what is made of its answer.

use crate::bigint::{bigint_values, to_bigint, BigInt};
use crate::field::{field_of_int, fr_values, modulus, Fr};
use crate::protocol::{RLNProofValues, RLNProofValuesView, RLNWitnessInput};
use crate::rng::random_field_element;
use vstd::prelude::*;

verus! {

/// The error of the proving system, `SynthesisError` of `ark-relations`.  It
/// is carried through as it is.
#[verifier::external_type_specification]
#[verifier::external_body]
pub struct ExSynthesisError(ark_relations::gr1cs::SynthesisError);

/// A Groth16 proof over BN254: a `Proof` of `ark-groth16`.  This library
/// does not look inside: a proof is made by the proving system and handed
/// back to it.
#[verifier::external_body]
#[derive(Debug, PartialEq)]
pub struct Proof {
    pub inner: ark_groth16::Proof<ark_bn254::Bn254>,
}

/// The verifying key of a circuit: a `VerifyingKey` of `ark-groth16`.  This
/// library does not look inside; what it tests of the contents has names.
#[verifier::external_body]
#[derive(Debug, PartialEq)]
pub struct VerifyingKey {
    pub key: ark_groth16::VerifyingKey<ark_bn254::Bn254>,
}

/// The proving key of a circuit together with its constraint matrices: a
/// `ProvingKey` of `ark-groth16` and an `NPIndex` of `ark-circom`.  This
/// library does not look inside; what it tests of the contents has names.
#[verifier::external_body]
#[derive(Debug)]
pub struct ProvingKey {
    pub key: ark_groth16::ProvingKey<ark_bn254::Bn254>,
    pub matrices: ark_circom::index::NPIndex<ark_bn254::Fr>,
}

/// The length of `gamma_abc_g1` of a verifying key, the elements that public
/// inputs are bound to: one more than the number of public inputs that the
/// key was made for.
pub uninterp spec fn verifying_key_input_bases(verifying_key: VerifyingKey) -> nat;

/// `num_instance_variables` of the matrices of a proving key: the number of
/// instance variables of its circuit, the constant one and the public
/// inputs.
pub uninterp spec fn proving_key_instance_variables(proving_key: ProvingKey) -> nat;

/// `num_constraints` of the matrices of a proving key: the number of
/// constraints of its circuit.
pub uninterp spec fn proving_key_constraints(proving_key: ProvingKey) -> nat;

/// The length of `a_query` of a proving key: the number of variables of its
/// circuit, the constant one among them.
pub uninterp spec fn proving_key_a_query_len(proving_key: ProvingKey) -> nat;

/// The length of `b_g1_query` of a proving key.
pub uninterp spec fn proving_key_b_g1_query_len(proving_key: ProvingKey) -> nat;

/// The length of `b_g2_query` of a proving key.
pub uninterp spec fn proving_key_b_g2_query_len(proving_key: ProvingKey) -> nat;

/// The columns of the entries of the matrix `a` of a proving key, row by
/// row: for each constraint the numbers of the variables that it names.
pub uninterp spec fn proving_key_a_columns(proving_key: ProvingKey) -> Seq<Seq<usize>>;

/// The columns of the entries of the matrix `b` of a proving key, row by
/// row.
pub uninterp spec fn proving_key_b_columns(proving_key: ProvingKey) -> Seq<Seq<usize>>;

/// Whether every point of a verifying key is a point of its group: on the
/// curve and in the subgroup of prime order.
pub uninterp spec fn verifying_key_points_valid(verifying_key: VerifyingKey) -> bool;

/// Whether every point of a proof is a point of its group: on the curve and
/// in the subgroup of prime order.
pub uninterp spec fn proof_points_valid(proof: Proof) -> bool;

/// The proof that the proving system makes for a full assignment with the
/// blinders `r` and `s`, or none where it fails.
pub uninterp spec fn groth16_prove_spec(
    proving_key: ProvingKey,
    r: nat,
    s: nat,
    full_assignment: Seq<nat>,
) -> Option<Proof>;

/// The answer of the proving system to a proof and its public inputs, or
/// none where it fails.
pub uninterp spec fn groth16_verify_spec(
    verifying_key: VerifyingKey,
    proof: Proof,
    public_inputs: Seq<nat>,
) -> Option<bool>;

/// The number of public inputs of an RLN proof.
pub open spec fn public_input_count() -> nat {
    6
}

/// The public inputs in the order in which the circuit declares them:
/// `y, root, nullifier, x, epoch, rln_identifier`.
pub open spec fn public_inputs_spec(v: RLNProofValuesView) -> Seq<nat> {
    seq![v.y, v.root, v.nullifier, v.x, v.epoch, v.rln_identifier]
}

/// Why the proving system could not do its work.
#[derive(Debug)]
pub enum SynthesisFailure {
    /// The verifying key was not made for the six public inputs of RLN, or
    /// one of its points is not a point of its group.
    MalformedVerifyingKey,
    /// A point of the proof is not a point of its group.
    MalformedProof,
    /// The proving key and its matrices do not describe one circuit.
    MalformedProvingKey,
    /// The failure that the proving system reported.
    ProvingSystem(ark_relations::gr1cs::SynthesisError),
}

/// Why no proof was produced, or a proof could not be checked.
#[derive(Debug)]
pub enum ProofError {
    /// The circuit's keys could not be read.
    CircuitKeyError(String),
    /// The witness does not fit the circuit.
    WitnessError(String),
    /// Proving or verifying failed structurally; this is not a proof that
    /// was checked and found wrong.
    SynthesisError(SynthesisFailure),
}

/// The name and the values of one input of the witness calculator.
pub open spec fn is_named_input(
    input: (&'static str, Vec<BigInt>),
    name: &str,
    values: Seq<int>,
) -> bool {
    &&& input.0@ == name@
    &&& bigint_values(input.1@) == values
}

/// The integers `values`, each widened from a byte.
pub open spec fn byte_values(bytes: Seq<u8>) -> Seq<int> {
    bytes.map_values(|b: u8| b as int)
}

/// The integers `values`, each the representative of a field element.
pub open spec fn representative_values(elements: Seq<nat>) -> Seq<int> {
    elements.map_values(|e: nat| e as int)
}

/// The signed integers that stand for a run of field elements.
fn elements_to_bigints(elements: &[Fr]) -> (r: Vec<BigInt>)
    ensures
        bigint_values(r@) == representative_values(fr_values(elements@)),
{
    let mut r: Vec<BigInt> = Vec::new();
    let mut i: usize = 0;
    while i < elements.len()
        invariant
            i <= elements@.len(),
            r@.len() == i,
            forall|j: int| 0 <= j < i ==> r@[j]@ == elements@[j]@,
        decreases elements@.len() - i,
    {
        r.push(to_bigint(&elements[i]));
        i = i + 1;
    }
    proof {
        assert(bigint_values(r@) =~= representative_values(fr_values(elements@)));
    }
    r
}

/// The signed integers that stand for a run of bytes.
fn bytes_to_bigints(bytes: &[u8]) -> (r: Vec<BigInt>)
    ensures
        bigint_values(r@) == byte_values(bytes@),
{
    let mut r: Vec<BigInt> = Vec::new();
    let mut i: usize = 0;
    while i < bytes.len()
        invariant
            i <= bytes@.len(),
            r@.len() == i,
            forall|j: int| 0 <= j < i ==> r@[j]@ == bytes@[j] as int,
        decreases bytes@.len() - i,
    {
        r.push(BigInt::from_u8(bytes[i]));
        i = i + 1;
    }
    proof {
        assert(bigint_values(r@) =~= byte_values(bytes@));
    }
    r
}

/// The one signed integer that stands for a field element.
fn single_bigint(element: &Fr) -> (r: Vec<BigInt>)
    ensures
        bigint_values(r@) == seq![element@ as int],
{
    let mut r: Vec<BigInt> = Vec::new();
    r.push(to_bigint(element));
    proof {
        assert(bigint_values(r@) =~= seq![element@ as int]);
    }
    r
}

/// The named inputs that the circuit's witness calculator takes for a
/// witness, in the order of the circuit's declaration.  The values are the
/// representatives of the field elements; the index bits are given as the
/// integers 0 and 1.
pub fn inputs_for_witness_calculation(rln_witness: &RLNWitnessInput) -> (inputs: [(
    &'static str,
    Vec<BigInt>,
); 6])
    ensures
        is_named_input(inputs[0], "identity_secret", seq![rln_witness@.identity_secret as int]),
        is_named_input(
            inputs[1],
            "path_elements",
            representative_values(rln_witness@.path_elements),
        ),
        is_named_input(
            inputs[2],
            "identity_path_index",
            byte_values(rln_witness@.identity_path_index),
        ),
        is_named_input(inputs[3], "x", seq![rln_witness@.x as int]),
        is_named_input(inputs[4], "epoch", seq![rln_witness@.epoch as int]),
        is_named_input(inputs[5], "rln_identifier", seq![rln_witness@.rln_identifier as int]),
{
    let path_elements = elements_to_bigints(rln_witness.path_elements().as_slice());
    let identity_path_index = bytes_to_bigints(rln_witness.identity_path_index().as_slice());

    [
        ("identity_secret", single_bigint(&rln_witness.identity_secret())),
        ("path_elements", path_elements),
        ("identity_path_index", identity_path_index),
        ("x", single_bigint(&rln_witness.x())),
        ("epoch", single_bigint(&rln_witness.epoch())),
        ("rln_identifier", single_bigint(&rln_witness.rln_identifier())),
    ]
}

/// Converts the full assignment that the witness calculator returns to field
/// elements: each signed integer `v` goes to `v mod p`.
pub fn calculate_witness_element(witness: Vec<BigInt>) -> (r: Vec<Fr>)
    ensures
        r@.len() == witness@.len(),
        forall|i: int| 0 <= i < r@.len() ==> (#[trigger] r@[i])@ == field_of_int(witness@[i]@),
{
    let mut r: Vec<Fr> = Vec::new();
    let mut i: usize = 0;
    while i < witness.len()
        invariant
            i <= witness@.len(),
            r@.len() == i,
            forall|j: int| 0 <= j < i ==> (#[trigger] r@[j])@ == field_of_int(witness@[j]@),
        decreases witness@.len() - i,
    {
        r.push(witness[i].to_field());
        i = i + 1;
    }
    r
}

/// The public inputs of a proof in the order in which the verifier takes
/// them.
pub fn public_inputs(proof_values: &RLNProofValues) -> (inputs: Vec<Fr>)
    ensures
        inputs@ == seq![
            proof_values.y,
            proof_values.root,
            proof_values.nullifier,
            proof_values.x,
            proof_values.epoch,
            proof_values.rln_identifier,
        ],
        fr_values(inputs@) == public_inputs_spec(proof_values@),
{
    let mut inputs: Vec<Fr> = Vec::new();
    inputs.push(proof_values.y);
    inputs.push(proof_values.root);
    inputs.push(proof_values.nullifier);
    inputs.push(proof_values.x);
    inputs.push(proof_values.epoch);
    inputs.push(proof_values.rln_identifier);
    proof {
        assert(inputs@ =~= seq![
            proof_values.y,
            proof_values.root,
            proof_values.nullifier,
            proof_values.x,
            proof_values.epoch,
            proof_values.rln_identifier,
        ]);
        assert(fr_values(inputs@) =~= public_inputs_spec(proof_values@));
    }
    inputs
}

/// What the caller of the prover is told, for each answer of the proving
/// system.
pub fn proving_outcome(answer: Result<Proof, ark_relations::gr1cs::SynthesisError>) -> (r: Result<
    Proof,
    ProofError,
>)
    ensures
        match answer {
            Ok(proof) => r == Ok::<Proof, ProofError>(proof),
            Err(e) => r == Err::<Proof, ProofError>(
                ProofError::SynthesisError(SynthesisFailure::ProvingSystem(e)),
            ),
        },
{
    match answer {
        Ok(proof) => Ok(proof),
        Err(e) => Err(ProofError::SynthesisError(SynthesisFailure::ProvingSystem(e))),
    }
}

/// What the caller of the verifier is told, for each answer of the proving
/// system: a proof that does not check is the plain answer `false`, not an
/// error.
pub fn verification_outcome(answer: Result<bool, ark_relations::gr1cs::SynthesisError>) -> (r:
    Result<bool, ProofError>)
    ensures
        match answer {
            Ok(verified) => r == Ok::<bool, ProofError>(verified),
            Err(e) => r == Err::<bool, ProofError>(
                ProofError::SynthesisError(SynthesisFailure::ProvingSystem(e)),
            ),
        },
{
    match answer {
        Ok(verified) => Ok(verified),
        Err(e) => Err(ProofError::SynthesisError(SynthesisFailure::ProvingSystem(e))),
    }
}

/// Whether every row names variables below the bound only.
pub open spec fn columns_are_below(rows: Seq<Seq<usize>>, bound: nat) -> bool {
    forall|i: int, j: int|
        0 <= i < rows.len() && 0 <= j < rows[i].len() ==> (#[trigger] rows[i][j]) < bound
}

/// Whether the parts of a proving key fit each other, so that the proving
/// system can work with them.
///
/// The circuit has the constant one among its instance variables, and no
/// more instance variables than variables.  The key has a first element in
/// each of its queries.  The matrices `a` and `b` have one row for each
/// constraint, and every entry of them names a variable of the circuit.
/// Constraints and instance variables together are at most half of what
/// `usize` counts, so that the size of the evaluation domain can be worked
/// out.
pub open spec fn proving_key_well_formed(proving_key: ProvingKey) -> bool {
    &&& 1 <= proving_key_instance_variables(proving_key) <= proving_key_a_query_len(proving_key)
    &&& proving_key_constraints(proving_key) + proving_key_instance_variables(proving_key)
        <= usize::MAX / 2
    &&& proving_key_b_g1_query_len(proving_key) >= 1
    &&& proving_key_b_g2_query_len(proving_key) >= 1
    &&& proving_key_a_columns(proving_key).len() == proving_key_constraints(proving_key)
    &&& proving_key_b_columns(proving_key).len() == proving_key_constraints(proving_key)
    &&& columns_are_below(
        proving_key_a_columns(proving_key),
        proving_key_a_query_len(proving_key),
    )
    &&& columns_are_below(
        proving_key_b_columns(proving_key),
        proving_key_a_query_len(proving_key),
    )
}

/// Whether the full assignment has one value for each variable of the
/// circuit.
pub open spec fn assignment_fits(proving_key: ProvingKey, length: nat) -> bool {
    length == proving_key_a_query_len(proving_key)
}

/// The field elements of a full assignment: each signed integer `v` goes to
/// `v mod p`.
pub open spec fn assignment_values(witness: Seq<int>) -> Seq<nat> {
    witness.map_values(|v: int| field_of_int(v))
}

/// Whether `outcome` is what generating a proof gives for a full assignment
/// and the blinders `r` and `s`.
///
/// A proving key whose parts do not fit each other is a synthesis error, and
/// an assignment that does not have one value for each variable of the
/// circuit is a witness error.  Otherwise the outcome is the proof that the
/// proving system makes for the assignment and the blinders, or a synthesis
/// error where it fails.
pub open spec fn is_proving_outcome(
    outcome: Result<Proof, ProofError>,
    witness: Seq<int>,
    proving_key: ProvingKey,
    r: nat,
    s: nat,
) -> bool {
    if !proving_key_well_formed(proving_key) {
        outcome matches Err(ProofError::SynthesisError(SynthesisFailure::MalformedProvingKey))
    } else if !assignment_fits(proving_key, witness.len()) {
        outcome matches Err(ProofError::WitnessError(_))
    } else {
        match groth16_prove_spec(proving_key, r, s, assignment_values(witness)) {
            Some(proof) => outcome == Ok::<Proof, ProofError>(proof),
            None => outcome matches Err(
                ProofError::SynthesisError(SynthesisFailure::ProvingSystem(_)),
            ),
        }
    }
}

/// Whether `outcome` is what verifying a proof against public values gives.
///
/// A verifying key that was not made for six public inputs, or with a point
/// outside its group, is a synthesis error, and so is a proof with a point
/// outside its group.  Otherwise the outcome is the answer of the proving
/// system to the proof and the public inputs in the order of the circuit, or
/// a synthesis error where it fails.
pub open spec fn is_verification_outcome(
    outcome: Result<bool, ProofError>,
    verifying_key: VerifyingKey,
    proof: Proof,
    proof_values: RLNProofValuesView,
) -> bool {
    if verifying_key_input_bases(verifying_key) != public_input_count() + 1
        || !verifying_key_points_valid(verifying_key) {
        outcome matches Err(ProofError::SynthesisError(SynthesisFailure::MalformedVerifyingKey))
    } else if !proof_points_valid(proof) {
        outcome matches Err(ProofError::SynthesisError(SynthesisFailure::MalformedProof))
    } else {
        match groth16_verify_spec(verifying_key, proof, public_inputs_spec(proof_values)) {
            Some(verified) => outcome == Ok::<bool, ProofError>(verified),
            None => outcome matches Err(
                ProofError::SynthesisError(SynthesisFailure::ProvingSystem(_)),
            ),
        }
    }
}

/// Whether every row names variables below the bound only.
fn rows_below(rows: &Vec<Vec<usize>>, bound: usize) -> (r: bool)
    ensures
        r == (forall|i: int, j: int|
            0 <= i < rows@.len() && 0 <= j < rows@[i]@.len() ==> (#[trigger] rows@[i]@[j])
                < bound),
{
    let mut i: usize = 0;
    while i < rows.len()
        invariant
            i <= rows@.len(),
            forall|k: int, j: int|
                0 <= k < i && 0 <= j < rows@[k]@.len() ==> (#[trigger] rows@[k]@[j]) < bound,
        decreases rows@.len() - i,
    {
        let row = &rows[i];
        let mut j: usize = 0;
        while j < row.len()
            invariant
                i < rows@.len(),
                row@ == rows@[i as int]@,
                j <= row@.len(),
                forall|l: int| 0 <= l < j ==> (#[trigger] row@[l]) < bound,
            decreases row@.len() - j,
        {
            if row[j] >= bound {
                proof {
                    assert(rows@[i as int]@[j as int] >= bound);
                }
                return false;
            }
            j = j + 1;
        }
        i = i + 1;
    }
    true
}

/// Tests whether the parts of a proving key fit each other.
pub fn is_well_formed_proving_key(proving_key: &ProvingKey) -> (r: bool)
    ensures
        r == proving_key_well_formed(*proving_key),
{
    let instance_variables = proving_key_instance_count(proving_key);
    let variables = proving_key_a_query_count(proving_key);
    let constraints = proving_key_constraint_count(proving_key);
    if instance_variables < 1 || instance_variables > variables {
        return false;
    }
    match constraints.checked_add(instance_variables) {
        Some(points) => {
            if points > usize::MAX / 2 {
                return false;
            }
        },
        None => { return false; },
    }
    if proving_key_b_g1_query_count(proving_key) < 1 || proving_key_b_g2_query_count(proving_key)
        < 1 {
        return false;
    }
    let a = proving_key_matrix_a_columns(proving_key);
    let b = proving_key_matrix_b_columns(proving_key);
    if a.len() != constraints || b.len() != constraints {
        return false;
    }
    let a_below = rows_below(&a, variables);
    let b_below = rows_below(&b, variables);
    proof {
        let a_columns = proving_key_a_columns(*proving_key);
        let b_columns = proving_key_b_columns(*proving_key);
        assert(a_below == columns_are_below(a_columns, variables as nat)) by {
            assert forall|i: int, j: int|
                0 <= i < a@.len() && 0 <= j < a@[i]@.len() implies a@[i]@[j] == a_columns[i][j] by {
                assert(a@[i]@ == a_columns[i]);
            }
            assert forall|i: int| 0 <= i < a@.len() implies a@[i]@.len() == (
            #[trigger] a_columns[i]).len() by {
                assert(a@[i]@ == a_columns[i]);
            }
        }
        assert(b_below == columns_are_below(b_columns, variables as nat)) by {
            assert forall|i: int, j: int|
                0 <= i < b@.len() && 0 <= j < b@[i]@.len() implies b@[i]@[j] == b_columns[i][j] by {
                assert(b@[i]@ == b_columns[i]);
            }
            assert forall|i: int| 0 <= i < b@.len() implies b@[i]@.len() == (
            #[trigger] b_columns[i]).len() by {
                assert(b@[i]@ == b_columns[i]);
            }
        }
    }
    a_below && b_below
}

/// Generates a proof from the full assignment of the circuit and the two
/// blinders.
///
/// The proving key is tested first, then the length of the assignment.  The
/// assignment is converted to field elements and handed to the proving
/// system with the blinders.
pub fn generate_proof_with_blinders(
    witness: Vec<BigInt>,
    proving_key: &ProvingKey,
    r: &Fr,
    s: &Fr,
) -> (outcome: Result<Proof, ProofError>)
    ensures
        is_proving_outcome(outcome, bigint_values(witness@), *proving_key, r@, s@),
{
    if !is_well_formed_proving_key(proving_key) {
        return Err(ProofError::SynthesisError(SynthesisFailure::MalformedProvingKey));
    }
    let length: usize = witness.len();
    let fits = length == proving_key_a_query_count(proving_key);
    proof {
        assert(bigint_values(witness@).len() == witness@.len());
    }
    if !fits {
        return Err(
            ProofError::WitnessError(
                "the full assignment does not fit the circuit of the proving key".to_string(),
            ),
        );
    }
    let ghost integers = bigint_values(witness@);
    let full_assignment = calculate_witness_element(witness);
    proof {
        assert(fr_values(full_assignment@) =~= assignment_values(integers));
    }
    proving_outcome(groth16_prove(proving_key, r, s, full_assignment.as_slice()))
}

/// Generates a proof from the full assignment of the circuit, as the witness
/// calculator returned it.
///
/// Two blinders are sampled, fresh for this proof, and the proof is generated
/// with them: the outcome is that of `generate_proof_with_blinders` for some
/// pair of blinders.
pub fn generate_proof_with_witness(witness: Vec<BigInt>, proving_key: &ProvingKey) -> (outcome:
    Result<Proof, ProofError>)
    ensures
        exists|r: nat, s: nat|
            r < modulus() && s < modulus() && #[trigger] is_proving_outcome(
                outcome,
                bigint_values(witness@),
                *proving_key,
                r,
                s,
            ),
{
    // Random values, fresh for each proof
    let r = random_field_element();
    let s = random_field_element();
    proof {
        use_type_invariant(&r);
        use_type_invariant(&s);
        r.lemma_canonical();
        s.lemma_canonical();
    }
    let ghost integers = bigint_values(witness@);

    let outcome = generate_proof_with_blinders(witness, proving_key, &r, &s);
    proof {
        assert(is_proving_outcome(outcome, integers, *proving_key, r@, s@));
    }
    outcome
}

/// Verifies a proof against the public values that it was made for.
///
/// The answer is `Ok(true)` if the proof checks and `Ok(false)` if it does
/// not.  The key and the proof are tested first: a key that was not made for
/// six public inputs, and a key or a proof with a point outside its group,
/// are synthesis errors.
pub fn verify_proof(
    verifying_key: &VerifyingKey,
    proof: &Proof,
    proof_values: &RLNProofValues,
) -> (outcome: Result<bool, ProofError>)
    ensures
        is_verification_outcome(outcome, *verifying_key, *proof, proof_values@),
{
    // The proof values are arranged as the circuit declares them
    let inputs = public_inputs(proof_values);

    if verifying_key_input_base_count(verifying_key) != 7 {
        return Err(ProofError::SynthesisError(SynthesisFailure::MalformedVerifyingKey));
    }
    if !verifying_key_has_valid_points(verifying_key) {
        return Err(ProofError::SynthesisError(SynthesisFailure::MalformedVerifyingKey));
    }
    if !proof_has_valid_points(proof) {
        return Err(ProofError::SynthesisError(SynthesisFailure::MalformedProof));
    }
    verification_outcome(groth16_verify(verifying_key, proof, inputs.as_slice()))
}

/// Reads the length of `gamma_abc_g1` of a `VerifyingKey` of `ark-groth16`.
#[verifier::external_body]
pub(crate) fn verifying_key_input_base_count(verifying_key: &VerifyingKey) -> (n: usize)
    ensures
        n == verifying_key_input_bases(*verifying_key),
{
    verifying_key.key.gamma_abc_g1.len()
}

/// Calls `Valid::check` of `ark-serialize` on a `VerifyingKey` of
/// `ark-groth16`, which checks each of its points to be on the curve and in
/// the subgroup of prime order.
#[verifier::external_body]
pub(crate) fn verifying_key_has_valid_points(verifying_key: &VerifyingKey) -> (valid: bool)
    ensures
        valid == verifying_key_points_valid(*verifying_key),
{
    ark_serialize::Valid::check(&verifying_key.key).is_ok()
}

/// Calls `Valid::check` of `ark-serialize` on a `Proof` of `ark-groth16`,
/// which checks each of its points to be on the curve and in the subgroup of
/// prime order.
#[verifier::external_body]
pub(crate) fn proof_has_valid_points(proof: &Proof) -> (valid: bool)
    ensures
        valid == proof_points_valid(*proof),
{
    ark_serialize::Valid::check(&proof.inner).is_ok()
}

/// Reads `num_instance_variables` of the constraint matrices, an `NPIndex` of
/// `ark-circom`.
#[verifier::external_body]
pub(crate) fn proving_key_instance_count(proving_key: &ProvingKey) -> (n: usize)
    ensures
        n == proving_key_instance_variables(*proving_key),
{
    proving_key.matrices.num_instance_variables
}

/// Reads `num_constraints` of the constraint matrices, an `NPIndex` of
/// `ark-circom`.
#[verifier::external_body]
pub(crate) fn proving_key_constraint_count(proving_key: &ProvingKey) -> (n: usize)
    ensures
        n == proving_key_constraints(*proving_key),
{
    proving_key.matrices.num_constraints
}

/// Reads the length of `a_query` of a `ProvingKey` of `ark-groth16`.
#[verifier::external_body]
pub(crate) fn proving_key_a_query_count(proving_key: &ProvingKey) -> (n: usize)
    ensures
        n == proving_key_a_query_len(*proving_key),
{
    proving_key.key.a_query.len()
}

/// Reads the length of `b_g1_query` of a `ProvingKey` of `ark-groth16`.
#[verifier::external_body]
pub(crate) fn proving_key_b_g1_query_count(proving_key: &ProvingKey) -> (n: usize)
    ensures
        n == proving_key_b_g1_query_len(*proving_key),
{
    proving_key.key.b_g1_query.len()
}

/// Reads the length of `b_g2_query` of a `ProvingKey` of `ark-groth16`.
#[verifier::external_body]
pub(crate) fn proving_key_b_g2_query_count(proving_key: &ProvingKey) -> (n: usize)
    ensures
        n == proving_key_b_g2_query_len(*proving_key),
{
    proving_key.key.b_g2_query.len()
}

/// Walks the matrix `a` of the constraint matrices, an `NPIndex` of
/// `ark-circom`, and hands out the column of each entry, row by row.
#[verifier::external_body]
pub(crate) fn proving_key_matrix_a_columns(proving_key: &ProvingKey) -> (rows: Vec<Vec<usize>>)
    ensures
        rows@.len() == proving_key_a_columns(*proving_key).len(),
        forall|i: int|
            0 <= i < rows@.len() ==> (#[trigger] rows@[i])@ == proving_key_a_columns(
                *proving_key,
            )[i],
{
    let matrix = &proving_key.matrices.a;
    matrix.iter().map(|row| row.iter().map(|entry| entry.1).collect()).collect()
}

/// Walks the matrix `b` of the constraint matrices, an `NPIndex` of
/// `ark-circom`, and hands out the column of each entry, row by row.
#[verifier::external_body]
pub(crate) fn proving_key_matrix_b_columns(proving_key: &ProvingKey) -> (rows: Vec<Vec<usize>>)
    ensures
        rows@.len() == proving_key_b_columns(*proving_key).len(),
        forall|i: int|
            0 <= i < rows@.len() ==> (#[trigger] rows@[i])@ == proving_key_b_columns(
                *proving_key,
            )[i],
{
    let matrix = &proving_key.matrices.b;
    matrix.iter().map(|row| row.iter().map(|entry| entry.1).collect()).collect()
}

/// Calls `Groth16::create_proof_with_reduction_and_matrices` of `ark-groth16`
/// with the `CircomReduction` of `ark-circom`, the blinders `r` and `s`, and
/// the matrices and counts of the proving key.  The reduction reads the
/// matrices `a` and `b` only.  Trusted: the call returns, where the parts of
/// the key fit each other and the assignment has one value for each
/// variable; and its result is a function of the key, the blinders and the
/// assignment alone, named `groth16_prove_spec`.
#[verifier::external_body]
pub(crate) fn groth16_prove(
    proving_key: &ProvingKey,
    r: &Fr,
    s: &Fr,
    full_assignment: &[Fr],
) -> (answer: Result<Proof, ark_relations::gr1cs::SynthesisError>)
    requires
        proving_key_well_formed(*proving_key),
        assignment_fits(*proving_key, full_assignment@.len()),
    ensures
        match answer {
            Ok(made) => groth16_prove_spec(*proving_key, r@, s@, fr_values(full_assignment@))
                == Some(made),
            Err(_) => groth16_prove_spec(*proving_key, r@, s@, fr_values(full_assignment@))
                is None,
        },
{
    let ark = |e: &Fr| <ark_bn254::Fr as ark_ff::PrimeField>::from_le_bytes_mod_order(&e.bytes);
    let assignment: Vec<ark_bn254::Fr> = full_assignment.iter().map(ark).collect();
    let m = &proving_key.matrices;
    let matrices = [m.a.clone(), m.b.clone(), m.c.clone()];
    let (inputs, constraints) = (m.num_instance_variables, m.num_constraints);
    let (pk, r, s) = (&proving_key.key, ark(r), ark(s));
    ark_groth16::Groth16::<
        ark_bn254::Bn254,
        ark_circom::CircomReduction,
    >::create_proof_with_reduction_and_matrices(pk, r, s, &matrices, inputs, constraints, &assignment)
        .map(|inner| Proof { inner })
}

/// Calls `prepare_verifying_key` and `Groth16::verify_proof` of
/// `ark-groth16`.  Trusted: the call returns, where the key has at least one
/// element to bind inputs to and every point of the key and of the proof is
/// a point of its group; and its answer is a function of the key, the proof
/// and the inputs alone, named `groth16_verify_spec`.
#[verifier::external_body]
pub(crate) fn groth16_verify(
    verifying_key: &VerifyingKey,
    proof: &Proof,
    public_inputs: &[Fr],
) -> (r: Result<bool, ark_relations::gr1cs::SynthesisError>)
    requires
        verifying_key_input_bases(*verifying_key) >= 1,
        verifying_key_points_valid(*verifying_key),
        proof_points_valid(*proof),
    ensures
        match r {
            Ok(verified) => groth16_verify_spec(
                *verifying_key,
                *proof,
                fr_values(public_inputs@),
            ) == Some(verified),
            Err(_) => groth16_verify_spec(*verifying_key, *proof, fr_values(public_inputs@))
                is None,
        },
{
    let ark = |e: &Fr| <ark_bn254::Fr as ark_ff::PrimeField>::from_le_bytes_mod_order(&e.bytes);
    let inputs: Vec<ark_bn254::Fr> = public_inputs.iter().map(ark).collect();
    let pvk = ark_groth16::prepare_verifying_key(&verifying_key.key);
    ark_groth16::Groth16::<ark_bn254::Bn254>::verify_proof(&pvk, &proof.inner, &inputs)
}

} // verus!
