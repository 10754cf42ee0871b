use rln::field::Fr;
use rln::hashes::poseidon_hash;
use rln::protocol::{
    compute_id_secret, compute_tree_root, deserialize_proof_values, deserialize_witness,
    hash_to_field, proof_values_from_witness, random_rln_witness, rln_witness_from_values,
    serialize_proof_values, serialize_witness, MerkleProof, RecoveryError, RLN_IDENTIFIER,
};
use rln::utils::CodecError;

fn sample_merkle_proof(depth: usize) -> MerkleProof {
    let mut path_elements = Vec::new();
    let mut path_index = Vec::new();
    for i in 0..depth {
        path_elements.push(hash_to_field(&[i as u8, 0xaa]));
        path_index.push((i % 2) as u8);
    }
    MerkleProof::new(path_elements, path_index).unwrap()
}

#[test]
fn witness_of_depth_20_round_trips() {
    let witness = random_rln_witness(20);
    let serialized = serialize_witness(&witness);
    assert_eq!(serialized.len(), 32 + 8 + 20 * 32 + 8 + 20 + 32 + 32 + 32);
    assert_eq!(serialized.len(), 804);
    let (decoded, read) = deserialize_witness(&serialized).unwrap();
    assert_eq!(decoded, witness);
    assert_eq!(read, 804);
}

#[test]
fn witness_with_trailing_bytes_is_rejected() {
    let witness = random_rln_witness(3);
    let mut serialized = serialize_witness(&witness);
    serialized.push(0);
    assert_eq!(deserialize_witness(&serialized), Err(CodecError::TrailingBytes));
}

#[test]
fn truncated_witness_is_rejected() {
    let witness = random_rln_witness(3);
    let serialized = serialize_witness(&witness);
    for cut in [0usize, 31, 32, 39, 40, 135, 136, 144, 147, 178, 242] {
        assert_eq!(
            deserialize_witness(&serialized[..cut]),
            Err(CodecError::UnexpectedEnd),
            "cut at {}",
            cut
        );
    }
}

#[test]
fn proof_values_field_order() {
    let witness = rln_witness_from_values(
        Fr::from_u64(11),
        &sample_merkle_proof(4),
        Fr::from_u64(22),
        Fr::from_u64(33),
    );
    let values = proof_values_from_witness(&witness);
    let serialized = serialize_proof_values(&values);
    assert_eq!(serialized.len(), 192);
    assert_eq!(serialized[..32].to_vec(), values.root.to_bytes_le());
    assert_eq!(serialized[32..64].to_vec(), values.epoch.to_bytes_le());
    assert_eq!(serialized[64..96].to_vec(), values.x.to_bytes_le());
    assert_eq!(serialized[96..128].to_vec(), values.y.to_bytes_le());
    assert_eq!(serialized[128..160].to_vec(), values.nullifier.to_bytes_le());
    assert_eq!(serialized[160..].to_vec(), values.rln_identifier.to_bytes_le());
    assert_eq!(values.rln_identifier, hash_to_field(&RLN_IDENTIFIER));

    let (decoded, read) = deserialize_proof_values(&serialized).unwrap();
    assert_eq!(decoded, values);
    assert_eq!(read, 192);
}

#[test]
fn share_extraction_recovers_the_identity_secret() {
    let identity_secret = hash_to_field(b"an identity secret");
    let epoch = hash_to_field(b"an epoch");
    let proof = sample_merkle_proof(5);

    let x1 = hash_to_field(b"first signal");
    let x2 = hash_to_field(b"second signal");
    let w1 = rln_witness_from_values(identity_secret, &proof, x1, epoch);
    let w2 = rln_witness_from_values(identity_secret, &proof, x2, epoch);
    let v1 = proof_values_from_witness(&w1);
    let v2 = proof_values_from_witness(&w2);
    assert_ne!(v1.x, v2.x);
    assert_eq!(v1.nullifier, v2.nullifier);

    let external_nullifier = poseidon_hash(&[epoch, w1.rln_identifier()]);
    let recovered = compute_id_secret((v1.x, v1.y), (v2.x, v2.y), external_nullifier);
    assert_eq!(recovered, Ok(identity_secret));
}

#[test]
fn shares_of_different_epochs_do_not_recover() {
    let identity_secret = hash_to_field(b"an identity secret");
    let proof = sample_merkle_proof(5);
    let epoch1 = hash_to_field(b"an epoch");
    let epoch2 = hash_to_field(b"another epoch");

    let w1 = rln_witness_from_values(identity_secret, &proof, hash_to_field(b"a"), epoch1);
    let w2 = rln_witness_from_values(identity_secret, &proof, hash_to_field(b"b"), epoch2);
    let v1 = proof_values_from_witness(&w1);
    let v2 = proof_values_from_witness(&w2);
    assert_ne!(v1.nullifier, v2.nullifier);

    let external_nullifier = poseidon_hash(&[epoch1, w1.rln_identifier()]);
    let recovered = compute_id_secret((v1.x, v1.y), (v2.x, v2.y), external_nullifier);
    assert_eq!(recovered, Err(RecoveryError::NotSamePolynomial));
    assert_eq!(
        RecoveryError::NotSamePolynomial.message(),
        "Cannot recover identity_secret_hash from provided shares"
    );
}

#[test]
fn shares_with_one_x_are_rejected() {
    let x = Fr::from_u64(5);
    let r = compute_id_secret((x, Fr::from_u64(1)), (x, Fr::from_u64(2)), Fr::from_u64(3));
    assert_eq!(r, Err(RecoveryError::DegenerateShares));
    assert_eq!(
        RecoveryError::DegenerateShares.message(),
        "Cannot recover identity_secret_hash from two shares with the same x"
    );
}

#[test]
fn tree_root_follows_the_index_bits() {
    let leaf = Fr::from_u64(1);
    let sibling = Fr::from_u64(2);
    let left = compute_tree_root(&leaf, &[sibling], &[0], false);
    let right = compute_tree_root(&leaf, &[sibling], &[1], false);
    assert_eq!(left, poseidon_hash(&[leaf, sibling]));
    assert_eq!(right, poseidon_hash(&[sibling, leaf]));
    assert_ne!(left, right);
}

#[test]
fn tree_root_hashes_the_leaf_where_asked() {
    let leaf = Fr::from_u64(1);
    let sibling = Fr::from_u64(2);
    let hashed = compute_tree_root(&leaf, &[sibling], &[0], true);
    assert_eq!(hashed, poseidon_hash(&[poseidon_hash(&[leaf]), sibling]));
    assert_eq!(compute_tree_root(&leaf, &[], &[], false), leaf);
}
