use rln::bigint::fr_to_decimal;
use rln::field::Fr;
use rln::le::{u64_from_le_bytes, u64_to_le_bytes};
use rln::protocol::{
    deserialize_field_element, deserialize_identity_pair, deserialize_identity_tuple,
    deserialize_proof_data, deserialize_proof_values, deserialize_verify_input,
    deserialize_witness, hash_to_field, prepare_prove_input,
    prepare_verify_input, proof_inputs_to_rln_witness, proof_values_from_witness,
    prove_input_leaf_index, random_rln_witness, rln_witness_from_values,
    serialize_field_element, serialize_proof_values, serialize_witness, MerkleProof,
    RLN_IDENTIFIER,
};
use rln::utils::{
    bytes_le_to_fr, bytes_le_to_vec_fr, bytes_le_to_vec_u8, fr_byte_size, fr_to_bytes_le,
    vec_fr_to_bytes_le, vec_u8_to_bytes_le, CodecError,
};

// p, little-endian
const MODULUS_LE: [u8; 32] = [
    0x01, 0x00, 0x00, 0xf0, 0x93, 0xf5, 0xe1, 0x43, 0x91, 0x70, 0xb9, 0x79, 0x48, 0xe8, 0x33, 0x28,
    0x5d, 0x58, 0x81, 0x81, 0xb6, 0x45, 0x50, 0xb8, 0x29, 0xa0, 0x31, 0xe1, 0x72, 0x4e, 0x64, 0x30,
];

fn identifier_bytes() -> Vec<u8> {
    fr_to_bytes_le(&hash_to_field(&RLN_IDENTIFIER))
}

#[test]
fn length_prefixes_are_64_bit_little_endian() {
    assert_eq!(u64_to_le_bytes(0x0102030405060708), vec![8, 7, 6, 5, 4, 3, 2, 1]);
    assert_eq!(u64_to_le_bytes(0), vec![0; 8]);
    assert_eq!(u64_to_le_bytes(u64::MAX), vec![0xff; 8]);
    assert_eq!(u64_from_le_bytes(&[0xaa, 8, 7, 6, 5, 4, 3, 2, 1, 0xbb], 1), 0x0102030405060708);
    assert_eq!(u64_from_le_bytes(&[0xff; 8], 0), u64::MAX);
}

#[test]
fn field_elements_take_32_little_endian_bytes() {
    assert_eq!(fr_byte_size(), 32);
    let mut expected = vec![0u8; 32];
    expected[0] = 0x34;
    expected[1] = 0x12;
    assert_eq!(fr_to_bytes_le(&Fr::from_u64(0x1234)), expected);
    assert_eq!(serialize_field_element(Fr::from_u64(0x1234)), expected);
    assert_eq!(bytes_le_to_fr(&expected), Ok((Fr::from_u64(0x1234), 32)));
    assert_eq!(deserialize_field_element(expected), Ok(Fr::from_u64(0x1234)));
}

#[test]
fn decoders_reduce_modulo_p() {
    assert_eq!(bytes_le_to_fr(&MODULUS_LE), Ok((Fr::zero(), 32)));
    let mut p_plus_two = MODULUS_LE;
    p_plus_two[0] += 2;
    assert_eq!(bytes_le_to_fr(&p_plus_two), Ok((Fr::from_u64(2), 32)));
    let all_ones = [0xffu8; 32];
    let (element, _) = bytes_le_to_fr(&all_ones).unwrap();
    // 2^256 - 1 mod p
    assert_eq!(
        fr_to_decimal(&element),
        "6350874878119819312338956282401532410528162663560392320966563075034087161850"
    );
}

#[test]
fn decoders_read_a_prefix_and_report_it() {
    let mut bytes = fr_to_bytes_le(&Fr::from_u64(9));
    bytes.extend_from_slice(&[1, 2, 3]);
    assert_eq!(bytes_le_to_fr(&bytes), Ok((Fr::from_u64(9), 32)));
    assert_eq!(bytes_le_to_fr(&bytes[..31]), Err(CodecError::UnexpectedEnd));
    assert_eq!(bytes_le_to_fr(&[]), Err(CodecError::UnexpectedEnd));
    assert_eq!(deserialize_field_element(vec![0; 31]), Err(CodecError::UnexpectedEnd));
}

#[test]
fn vectors_are_prefixed_by_their_count() {
    let elements = vec![Fr::from_u64(1), Fr::from_u64(2), Fr::from_u64(3)];
    let encoded = vec_fr_to_bytes_le(&elements);
    assert_eq!(encoded.len(), 8 + 3 * 32);
    assert_eq!(encoded[..8].to_vec(), vec![3, 0, 0, 0, 0, 0, 0, 0]);
    assert_eq!(encoded[8..40].to_vec(), fr_to_bytes_le(&Fr::from_u64(1)));
    assert_eq!(encoded[72..].to_vec(), fr_to_bytes_le(&Fr::from_u64(3)));
    assert_eq!(bytes_le_to_vec_fr(&encoded), Ok((elements.clone(), 104)));

    let mut longer = encoded.clone();
    longer.push(0xee);
    assert_eq!(bytes_le_to_vec_fr(&longer), Ok((elements, 104)));
    assert_eq!(bytes_le_to_vec_fr(&encoded[..103]), Err(CodecError::UnexpectedEnd));
    assert_eq!(bytes_le_to_vec_fr(&encoded[..7]), Err(CodecError::UnexpectedEnd));
    assert_eq!(vec_fr_to_bytes_le(&[]), vec![0; 8]);
    assert_eq!(bytes_le_to_vec_fr(&[0; 8]), Ok((Vec::new(), 8)));

    let bytes = vec_u8_to_bytes_le(&[7, 8, 9]);
    assert_eq!(bytes, vec![3, 0, 0, 0, 0, 0, 0, 0, 7, 8, 9]);
    assert_eq!(bytes_le_to_vec_u8(&bytes), Ok((vec![7, 8, 9], 11)));
    assert_eq!(bytes_le_to_vec_u8(&bytes[..10]), Err(CodecError::UnexpectedEnd));
    assert_eq!(bytes_le_to_vec_u8(&[0; 8]), Ok((Vec::new(), 8)));
}

#[test]
fn count_that_the_input_cannot_hold_is_an_early_end() {
    let mut bytes = vec![0xffu8; 8];
    bytes.extend_from_slice(&[0; 64]);
    assert_eq!(bytes_le_to_vec_fr(&bytes), Err(CodecError::UnexpectedEnd));
    assert_eq!(bytes_le_to_vec_u8(&bytes), Err(CodecError::UnexpectedEnd));
}

#[test]
fn witness_wire_format() {
    let path = vec![Fr::from_u64(5), Fr::from_u64(6)];
    let proof = MerkleProof::new(path.clone(), vec![1, 0]).unwrap();
    let witness =
        rln_witness_from_values(Fr::from_u64(1), &proof, Fr::from_u64(2), Fr::from_u64(3));
    let serialized = serialize_witness(&witness);

    let mut expected = Vec::new();
    expected.extend(fr_to_bytes_le(&Fr::from_u64(1)));
    expected.extend(vec![2, 0, 0, 0, 0, 0, 0, 0]);
    expected.extend(fr_to_bytes_le(&Fr::from_u64(5)));
    expected.extend(fr_to_bytes_le(&Fr::from_u64(6)));
    expected.extend(vec![2, 0, 0, 0, 0, 0, 0, 0]);
    expected.extend(vec![1, 0]);
    expected.extend(fr_to_bytes_le(&Fr::from_u64(2)));
    expected.extend(fr_to_bytes_le(&Fr::from_u64(3)));
    expected.extend(identifier_bytes());
    assert_eq!(serialized, expected);

    let (decoded, read) = deserialize_witness(&serialized).unwrap();
    assert_eq!(read, serialized.len());
    assert_eq!(decoded, witness);
    assert_eq!(decoded.identity_secret(), Fr::from_u64(1));
    assert_eq!(decoded.path_elements(), path);
    assert_eq!(decoded.identity_path_index(), vec![1, 0]);
    assert_eq!(decoded.x(), Fr::from_u64(2));
    assert_eq!(decoded.epoch(), Fr::from_u64(3));
    assert_eq!(decoded.rln_identifier(), hash_to_field(&RLN_IDENTIFIER));
}

#[test]
fn witness_of_the_empty_path_round_trips() {
    let witness = random_rln_witness(0);
    let serialized = serialize_witness(&witness);
    assert_eq!(serialized.len(), 32 + 8 + 8 + 96);
    assert_eq!(deserialize_witness(&serialized), Ok((witness, 144)));
}

fn witness_bytes(path: usize, index: &[u8], identifier: Vec<u8>) -> Vec<u8> {
    let mut bytes = Vec::new();
    bytes.extend(fr_to_bytes_le(&Fr::from_u64(1)));
    bytes.extend(u64_to_le_bytes(path as u64));
    for i in 0..path {
        bytes.extend(fr_to_bytes_le(&Fr::from_u64(100 + i as u64)));
    }
    bytes.extend(vec_u8_to_bytes_le(index));
    bytes.extend(fr_to_bytes_le(&Fr::from_u64(2)));
    bytes.extend(fr_to_bytes_le(&Fr::from_u64(3)));
    bytes.extend(identifier);
    bytes
}

#[test]
fn witness_with_a_path_of_two_lengths_is_rejected() {
    let bytes = witness_bytes(2, &[0, 1, 0], identifier_bytes());
    assert_eq!(deserialize_witness(&bytes), Err(CodecError::LengthMismatch));
    let bytes = witness_bytes(3, &[0, 1], identifier_bytes());
    assert_eq!(deserialize_witness(&bytes), Err(CodecError::LengthMismatch));
    let bytes = witness_bytes(2, &[0, 1], identifier_bytes());
    assert!(deserialize_witness(&bytes).is_ok());
}

#[test]
fn witness_with_an_index_that_is_no_bit_is_rejected() {
    let bytes = witness_bytes(3, &[0, 2, 1], identifier_bytes());
    assert_eq!(deserialize_witness(&bytes), Err(CodecError::InvalidPathIndex));
    let bytes = witness_bytes(1, &[255], identifier_bytes());
    assert_eq!(deserialize_witness(&bytes), Err(CodecError::InvalidPathIndex));
}

#[test]
fn witness_of_a_foreign_identifier_is_rejected() {
    let bytes = witness_bytes(2, &[0, 1], fr_to_bytes_le(&Fr::from_u64(0)));
    assert_eq!(deserialize_witness(&bytes), Err(CodecError::ForeignIdentifier));
    let bytes = witness_bytes(2, &[0, 1], fr_to_bytes_le(&hash_to_field(b"another application")));
    assert_eq!(deserialize_witness(&bytes), Err(CodecError::ForeignIdentifier));
}

#[test]
fn proof_values_are_read_from_in_front_of_the_proof() {
    let witness = random_rln_witness(4);
    let values = proof_values_from_witness(&witness);
    let mut proof_data = serialize_proof_values(&values);
    assert_eq!(proof_data.len(), 192);
    // the 128 bytes of the proof follow
    proof_data.extend_from_slice(&[0xab; 128]);
    let (decoded, read) = deserialize_proof_values(&proof_data).unwrap();
    assert_eq!(decoded, values);
    assert_eq!(read, 192);
    assert_eq!(proof_data[read..].len(), 128);

    assert_eq!(deserialize_proof_values(&proof_data[..191]), Err(CodecError::UnexpectedEnd));
    assert_eq!(deserialize_proof_values(&[]), Err(CodecError::UnexpectedEnd));
}

#[test]
fn proof_values_of_a_foreign_identifier_are_rejected() {
    let witness = random_rln_witness(4);
    let mut values = proof_values_from_witness(&witness);
    values.rln_identifier = Fr::from_u64(1);
    let serialized = serialize_proof_values(&values);
    assert_eq!(deserialize_proof_values(&serialized), Err(CodecError::ForeignIdentifier));
}

#[test]
fn proof_values_follow_the_witness() {
    let path = vec![Fr::from_u64(5), Fr::from_u64(6)];
    let proof = MerkleProof::new(path, vec![1, 0]).unwrap();
    let witness =
        rln_witness_from_values(Fr::from_u64(1), &proof, Fr::from_u64(2), Fr::from_u64(3));
    let values = proof_values_from_witness(&witness);
    assert_eq!(values.x, Fr::from_u64(2));
    assert_eq!(values.epoch, Fr::from_u64(3));
    assert_eq!(values.rln_identifier, hash_to_field(&RLN_IDENTIFIER));
}

#[test]
fn prove_input_blob() {
    let secret = Fr::from_u64(77);
    let epoch = Fr::from_u64(88);
    let signal = b"a signal";
    let blob = prepare_prove_input(secret, 5, epoch, signal);

    let mut expected = Vec::new();
    expected.extend(fr_to_bytes_le(&secret));
    expected.extend(vec![5, 0, 0, 0, 0, 0, 0, 0]);
    expected.extend(fr_to_bytes_le(&epoch));
    expected.extend(vec![8, 0, 0, 0, 0, 0, 0, 0]);
    expected.extend(signal.to_vec());
    assert_eq!(blob, expected);
    assert_eq!(blob.len(), 32 + 8 + 32 + 8 + 8);

    assert_eq!(prove_input_leaf_index(&blob), Ok(5));
    let path = vec![Fr::from_u64(5), Fr::from_u64(6)];
    let proof = MerkleProof::new(path.clone(), vec![1, 0]).unwrap();
    let (witness, read) = proof_inputs_to_rln_witness(&proof, &blob).unwrap();
    assert_eq!(read, 80 + signal.len());
    assert_eq!(read, blob.len());
    assert_eq!(witness.identity_secret(), secret);
    assert_eq!(witness.epoch(), epoch);
    assert_eq!(witness.x(), hash_to_field(signal));
    assert_eq!(witness.path_elements(), path);
    assert_eq!(witness.identity_path_index(), vec![1, 0]);
    assert_eq!(witness.rln_identifier(), hash_to_field(&RLN_IDENTIFIER));
    assert_eq!(witness, rln_witness_from_values(secret, &proof, hash_to_field(signal), epoch));

    assert_eq!(
        proof_inputs_to_rln_witness(&proof, &blob[..blob.len() - 1]),
        Err(CodecError::UnexpectedEnd)
    );
    assert_eq!(proof_inputs_to_rln_witness(&proof, &blob[..79]), Err(CodecError::UnexpectedEnd));
    assert_eq!(prove_input_leaf_index(&blob[..39]), Err(CodecError::UnexpectedEnd));
    assert_eq!(prove_input_leaf_index(&blob[..40]), Ok(5));
}

#[test]
fn prove_input_offset_is_where_the_rest_starts() {
    let proof = MerkleProof::new(Vec::new(), Vec::new()).unwrap();
    let rest = [0xa1u8, 0xa2, 0xa3];
    for signal in [&b""[..], &b"s"[..], &b"a longer signal"[..]] {
        let mut input = prepare_prove_input(Fr::from_u64(1), 2, Fr::from_u64(3), signal);
        input.extend_from_slice(&rest);
        let (witness, read) = proof_inputs_to_rln_witness(&proof, &input).unwrap();
        assert_eq!(read, 32 + 8 + 32 + 8 + signal.len());
        assert_eq!(input[read..].to_vec(), rest.to_vec());
        assert_eq!(witness.x(), hash_to_field(signal));
    }
}

#[test]
fn proof_data_holds_the_values_and_then_the_proof() {
    let witness = random_rln_witness(2);
    let values = proof_values_from_witness(&witness);
    let mut proof_data = serialize_proof_values(&values);
    proof_data.extend_from_slice(&[0xcd; 128]);
    assert_eq!(deserialize_proof_data(&proof_data), Ok((values, 192, 320)));
    assert_eq!(proof_data[192..320].to_vec(), vec![0xcd; 128]);

    let mut longer = proof_data.clone();
    longer.push(1);
    assert_eq!(deserialize_proof_data(&longer), Ok((values, 192, 320)));
    assert_eq!(deserialize_proof_data(&proof_data[..319]), Err(CodecError::UnexpectedEnd));
    assert_eq!(deserialize_proof_data(&proof_data[..192]), Err(CodecError::UnexpectedEnd));
    assert_eq!(deserialize_proof_data(&proof_data[..191]), Err(CodecError::UnexpectedEnd));

    let mut foreign = values;
    foreign.rln_identifier = Fr::from_u64(9);
    let mut foreign_data = serialize_proof_values(&foreign);
    foreign_data.extend_from_slice(&[0xcd; 128]);
    assert_eq!(deserialize_proof_data(&foreign_data), Err(CodecError::ForeignIdentifier));
}

#[test]
fn verify_input_is_read_back() {
    let witness = random_rln_witness(2);
    let values = proof_values_from_witness(&witness);
    let mut proof_data = serialize_proof_values(&values);
    proof_data.extend_from_slice(&[0xcd; 128]);
    let mut blob = prepare_verify_input(proof_data, b"the signal");
    assert_eq!(blob.len(), 192 + 128 + 8 + 10);
    assert_eq!(
        deserialize_verify_input(&blob),
        Ok((values, 192, 320, b"the signal".to_vec(), 338))
    );
    assert_eq!(deserialize_verify_input(&blob[..337]), Err(CodecError::UnexpectedEnd));
    assert_eq!(deserialize_verify_input(&blob[..327]), Err(CodecError::UnexpectedEnd));
    assert_eq!(deserialize_verify_input(&blob[..300]), Err(CodecError::UnexpectedEnd));
    blob.extend_from_slice(&[7, 7]);
    let (_, _, _, signal, read) = deserialize_verify_input(&blob).unwrap();
    assert_eq!(signal, b"the signal".to_vec());
    assert_eq!(blob[read..].to_vec(), vec![7, 7]);
}

#[test]
fn verify_input_blob() {
    let proof_data = vec![1u8, 2, 3, 4];
    let blob = prepare_verify_input(proof_data, b"xyz");
    assert_eq!(blob, vec![1, 2, 3, 4, 3, 0, 0, 0, 0, 0, 0, 0, b'x', b'y', b'z']);
    let blob = prepare_verify_input(Vec::new(), b"");
    assert_eq!(blob, vec![0; 8]);
}

#[test]
fn identity_pair_and_tuple() {
    let elements = [Fr::from_u64(1), Fr::from_u64(2), Fr::from_u64(3), Fr::from_u64(4)];
    let mut bytes = Vec::new();
    for e in &elements {
        bytes.extend(fr_to_bytes_le(e));
    }
    assert_eq!(deserialize_identity_pair(bytes.clone()), Ok((elements[0], elements[1])));
    assert_eq!(
        deserialize_identity_tuple(bytes.clone()),
        Ok((elements[0], elements[1], elements[2], elements[3]))
    );
    assert_eq!(deserialize_identity_pair(bytes[..63].to_vec()), Err(CodecError::UnexpectedEnd));
    assert_eq!(deserialize_identity_tuple(bytes[..127].to_vec()), Err(CodecError::UnexpectedEnd));
}

#[test]
fn hash_to_field_known_answers() {
    // Keccak-256 of the empty input and of "abc", little-endian, modulo p
    assert_eq!(
        fr_to_decimal(&hash_to_field(b"")),
        "7173236656320612194178997223602979818891828541827642103715116037219761443523"
    );
    assert_eq!(
        fr_to_decimal(&hash_to_field(b"abc")),
        "9512478097699745686993458277055657037733614854988228344414304958871849206605"
    );
}
