use rln::bigint::fr_to_decimal;
use rln::field::Fr;
use rln::hashes::poseidon_hash;
use rln::protocol::{
    compute_id_secret, compute_tree_root, extended_keygen, extended_seeded_keygen, keygen,
    proof_values_from_witness, random_rln_witness, rln_witness_from_values, seeded_keygen,
    MerkleProof,
};

#[test]
fn keygen_commits_to_its_secret() {
    let (identity_secret_hash, id_commitment) = keygen();
    assert_eq!(id_commitment, poseidon_hash(&[identity_secret_hash]));
    let (another, _) = keygen();
    assert_ne!(identity_secret_hash, another);
}

#[test]
fn extended_keygen_hashes_trapdoor_and_nullifier() {
    let (trapdoor, nullifier, identity_secret_hash, id_commitment) = extended_keygen();
    assert_ne!(trapdoor, nullifier);
    assert_eq!(identity_secret_hash, poseidon_hash(&[trapdoor, nullifier]));
    assert_eq!(id_commitment, poseidon_hash(&[identity_secret_hash]));
}

#[test]
fn seeded_keygen_is_a_function_of_the_seed() {
    let (secret, commitment) = seeded_keygen(b"a seed");
    assert_eq!(seeded_keygen(b"a seed"), (secret, commitment));
    assert_eq!(commitment, poseidon_hash(&[secret]));
    let (other, _) = seeded_keygen(b"another seed");
    assert_ne!(secret, other);
}

#[test]
fn seeded_keygen_known_answers() {
    let (secret, commitment) = seeded_keygen(b"a seed");
    assert_eq!(
        fr_to_decimal(&secret),
        "14802513635332373034600470673963520624232264229073292148414071960525896013432"
    );
    assert_eq!(
        fr_to_decimal(&commitment),
        "6295385494954793787654120177860041376501320038050387922724112268437961754987"
    );
    let (trapdoor, nullifier, secret, commitment) = extended_seeded_keygen(b"a seed");
    assert_eq!(
        fr_to_decimal(&trapdoor),
        "14802513635332373034600470673963520624232264229073292148414071960525896013432"
    );
    assert_eq!(
        fr_to_decimal(&nullifier),
        "2980981929713884373219575569442650978920447322331562163988818173241436908084"
    );
    assert_eq!(
        fr_to_decimal(&secret),
        "3834253137400066604178741211966184101347200201787946387959178693333107193928"
    );
    assert_eq!(
        fr_to_decimal(&commitment),
        "9280027192829766429388576642723419885497304213411596755317896802061870921526"
    );
}

#[test]
fn poseidon_takes_up_to_sixteen_inputs() {
    let inputs: Vec<Fr> = (1..=16u64).map(Fr::from_u64).collect();
    assert_eq!(
        fr_to_decimal(&poseidon_hash(&inputs)),
        "9989051620750914585850546081941653841776809718687451684622678807385399211877"
    );
}

#[test]
fn random_witness_has_a_bit_for_each_sibling() {
    let witness = random_rln_witness(9);
    assert_eq!(witness.path_elements().len(), 9);
    assert_eq!(witness.identity_path_index().len(), 9);
    assert!(witness.identity_path_index().iter().all(|bit| *bit <= 1));
    assert_ne!(witness.identity_secret(), random_rln_witness(9).identity_secret());
}

#[test]
fn extended_seeded_keygen_is_a_function_of_the_seed() {
    let (trapdoor, nullifier, secret, commitment) = extended_seeded_keygen(b"a seed");
    assert_eq!(extended_seeded_keygen(b"a seed"), (trapdoor, nullifier, secret, commitment));
    assert_ne!(trapdoor, nullifier);
    assert_eq!(secret, poseidon_hash(&[trapdoor, nullifier]));
    assert_eq!(commitment, poseidon_hash(&[secret]));
    // the first sample of the generator is the same for both derivations
    assert_eq!(seeded_keygen(b"a seed").0, trapdoor);
}

#[test]
fn root_of_the_witness_is_the_root_over_the_commitment() {
    let witness = random_rln_witness(6);
    let values = proof_values_from_witness(&witness);
    let commitment = poseidon_hash(&[witness.identity_secret()]);
    let root = compute_tree_root(
        &commitment,
        &witness.path_elements(),
        &witness.identity_path_index(),
        false,
    );
    assert_eq!(values.root, root);
    let hashed = compute_tree_root(
        &witness.identity_secret(),
        &witness.path_elements(),
        &witness.identity_path_index(),
        true,
    );
    assert_eq!(values.root, hashed);
}

#[test]
fn root_of_a_tree_of_depth_two() {
    // leaves l0..l3; the path of l2 is (l3, right) then (h01, left)
    let leaves: Vec<Fr> = (0..4u64).map(|i| Fr::from_u64(10 + i)).collect();
    let h01 = poseidon_hash(&[leaves[0], leaves[1]]);
    let h23 = poseidon_hash(&[leaves[2], leaves[3]]);
    let root = poseidon_hash(&[h01, h23]);
    assert_eq!(compute_tree_root(&leaves[2], &[leaves[3], h01], &[0, 1], false), root);
    assert_eq!(compute_tree_root(&leaves[1], &[leaves[0], h23], &[1, 0], false), root);
}

#[test]
fn shares_are_points_of_one_line() {
    let secret = Fr::from_u64(1000);
    let epoch = Fr::from_u64(5);
    let proof = MerkleProof::new(Vec::new(), Vec::new()).unwrap();
    let w1 = rln_witness_from_values(secret, &proof, Fr::from_u64(3), epoch);
    let w2 = rln_witness_from_values(secret, &proof, Fr::from_u64(4), epoch);
    let v1 = proof_values_from_witness(&w1);
    let v2 = proof_values_from_witness(&w2);
    let external_nullifier = poseidon_hash(&[epoch, w1.rln_identifier()]);
    let a_1 = poseidon_hash(&[secret, external_nullifier]);
    assert_eq!(v1.y, secret.add(&Fr::from_u64(3).mul(&a_1)));
    assert_eq!(v2.y, secret.add(&Fr::from_u64(4).mul(&a_1)));
    assert_eq!(v1.nullifier, poseidon_hash(&[a_1]));
    assert_eq!(v2.y.sub(&v1.y), a_1);
}

#[test]
fn recovery_does_not_depend_on_the_order_of_the_shares() {
    let secret = Fr::from_u64(1000);
    let epoch = Fr::from_u64(5);
    let proof = MerkleProof::new(Vec::new(), Vec::new()).unwrap();
    let w1 = rln_witness_from_values(secret, &proof, Fr::from_u64(3), epoch);
    let v1 = proof_values_from_witness(&w1);
    // the second share is computed by hand
    let external_nullifier = poseidon_hash(&[epoch, w1.rln_identifier()]);
    let x2 = Fr::from_u64(4);
    let y2 = v1.y.add(&v1.y.sub(&secret).div(&v1.x).unwrap());
    assert_eq!(compute_id_secret((v1.x, v1.y), (x2, y2), external_nullifier), Ok(secret));
    assert_eq!(compute_id_secret((x2, y2), (v1.x, v1.y), external_nullifier), Ok(secret));
}

#[test]
fn merkle_proof_needs_one_bit_for_each_sibling() {
    assert!(MerkleProof::new(vec![Fr::from_u64(1)], vec![0, 1]).is_none());
    assert!(MerkleProof::new(vec![Fr::from_u64(1)], vec![2]).is_none());
    let proof = MerkleProof::new(vec![Fr::from_u64(1), Fr::from_u64(2)], vec![0, 1]).unwrap();
    assert_eq!(proof.get_path_elements(), vec![Fr::from_u64(1), Fr::from_u64(2)]);
    assert_eq!(proof.get_path_index(), vec![0, 1]);
}

#[test]
fn field_inverse_and_quotient() {
    let a = Fr::from_u64(123456789);
    let inverse = a.inverse().unwrap();
    assert_eq!(a.mul(&inverse), Fr::from_u64(1));
    assert_eq!(Fr::zero().inverse(), None);
    assert_eq!(Fr::from_u64(42).div(&Fr::from_u64(6)), Some(Fr::from_u64(7)));
    assert_eq!(Fr::from_u64(42).div(&Fr::zero()), None);
    assert!(!a.equals(&inverse));
    assert!(a.equals(&Fr::from_u64(123456789)));
}
