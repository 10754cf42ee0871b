//! Laws of the wire formats and of the derivation of proof values.

use crate::bigint::{decimal_digits, hex_digit_char, hex_digits, padded_hex_text};
use crate::field::{field_sub, is_field_inverse, modulus};
use crate::json::{
    all_bit_values, decimal_member, decimal_members, hexadecimal_member, json_inputs_spec,
    witness_from_json_spec, JsonError,
};
use crate::le::{le_bytes, lemma_le_bytes_len};
use crate::protocol::{
    compute_id_secret_spec, compute_tree_root_spec, external_nullifier_spec, hash_to_field_spec,
    id_commitment_spec, lemma_share_recovery, merkle_fold, parse_proof_data,
    parse_proof_values, parse_prove_input, parse_witness, proof_size, proof_values_encoding,
    proof_values_spec, prove_input_encoding, prove_input_len, rln_identifier_spec, share_slope,
    verify_input_encoding, witness_encoding, ProveInputView, RLNProofValuesView,
    RLNWitnessInputView, RecoveryError,
};
use crate::utils::{
    fr_encoding, lemma_fr_run_encoding_len, lemma_parse_fr_of_encoding,
    lemma_parse_u64_of_encoding, lemma_parse_vec_fr_of_encoding, lemma_parse_vec_u8_of_encoding,
    parse_fr, parse_u64, parse_vec_fr, parse_vec_u8, vec_fr_encoding, vec_u8_encoding,
    CodecError,
};
use crate::text::{all_digits, digit_of, digits_value, number_digits, unquoted};
use vstd::arithmetic::div_mod::{lemma_mod_bound, lemma_small_mod};
use vstd::prelude::*;
use vstd::utf8::{encode_utf8, is_ascii_chars_encode_utf8};

verus! {

/// The number of bytes of an encoded witness with a Merkle path of the given
/// numbers of siblings and index bits.
pub open spec fn witness_encoding_len(path_elements: nat, path_index: nat) -> nat {
    32 + 8 + 32 * path_elements + 8 + path_index + 32 + 32 + 32
}

/// An encoded witness of depth `D` takes `32 + 8 + 32 * D + 8 + D + 96`
/// bytes.
pub proof fn lemma_witness_encoding_len(w: RLNWitnessInputView)
    ensures
        witness_encoding(w).len() == witness_encoding_len(
            w.path_elements.len(),
            w.identity_path_index.len(),
        ),
{
    lemma_le_bytes_len(w.identity_secret, 32);
    lemma_le_bytes_len(w.path_elements.len(), 8);
    lemma_fr_run_encoding_len(w.path_elements);
    lemma_le_bytes_len(w.identity_path_index.len(), 8);
    lemma_le_bytes_len(w.x, 32);
    lemma_le_bytes_len(w.epoch, 32);
    lemma_le_bytes_len(w.rln_identifier, 32);
}

/// Decoding an encoded witness gives the witness back, and reports all of
/// its bytes as read.
///
/// This holds of every well-formed witness that carries the identifier of
/// this library and whose path is short enough for a 64-bit count.
pub proof fn lemma_witness_round_trip(w: RLNWitnessInputView)
    requires
        w.wf(),
        w.rln_identifier == rln_identifier_spec(),
        w.path_elements.len() < 0x1_0000_0000_0000_0000,
    ensures
        parse_witness(witness_encoding(w)) == Ok::<(RLNWitnessInputView, nat), CodecError>(
            (w, witness_encoding(w).len()),
        ),
{
    let input = witness_encoding(w);
    let secret = fr_encoding(w.identity_secret);
    let path = vec_fr_encoding(w.path_elements);
    let index = vec_u8_encoding(w.identity_path_index);
    let x = fr_encoding(w.x);
    let epoch = fr_encoding(w.epoch);
    let identifier = fr_encoding(w.rln_identifier);
    let empty = Seq::<u8>::empty();
    lemma_witness_encoding_len(w);
    lemma_le_bytes_len(w.identity_secret, 32);
    lemma_le_bytes_len(w.x, 32);
    lemma_le_bytes_len(w.epoch, 32);

    assert(input =~= empty + secret + (path + index + x + epoch + identifier));
    lemma_parse_fr_of_encoding(empty, w.identity_secret, path + index + x + epoch + identifier);

    assert(input =~= secret + path + (index + x + epoch + identifier));
    lemma_parse_vec_fr_of_encoding(secret, w.path_elements, index + x + epoch + identifier);
    let at_index: nat = 40 + 32 * w.path_elements.len();
    assert((secret + path).len() == at_index);

    assert(input =~= (secret + path) + index + (x + epoch + identifier));
    lemma_parse_vec_u8_of_encoding(secret + path, w.identity_path_index, x + epoch + identifier);
    let at_x: nat = at_index + 8 + w.identity_path_index.len();
    assert((secret + path + index).len() == at_x);

    assert(input =~= (secret + path + index) + x + (epoch + identifier));
    lemma_parse_fr_of_encoding(secret + path + index, w.x, epoch + identifier);

    assert(input =~= (secret + path + index + x) + epoch + identifier);
    lemma_parse_fr_of_encoding(secret + path + index + x, w.epoch, identifier);
    assert((secret + path + index + x).len() == at_x + 32);

    assert(input =~= (secret + path + index + x + epoch) + identifier + empty);
    lemma_parse_fr_of_encoding(secret + path + index + x + epoch, w.rln_identifier, empty);
    assert((secret + path + index + x + epoch).len() == at_x + 64);

    assert(parse_fr(input, 0) == Some(w.identity_secret));
    assert(parse_vec_fr(input, 32) == Some(w.path_elements));
    assert(parse_vec_u8(input, at_index) == Some(w.identity_path_index));
    assert(parse_fr(input, at_x) == Some(w.x));
    assert(parse_fr(input, at_x + 32) == Some(w.epoch));
    assert(parse_fr(input, at_x + 64) == Some(w.rln_identifier));
    assert(input.len() == at_x + 96);
}

/// The encoded public values of a proof take 192 bytes, of which the first
/// 32 encode the root and the last 32 encode the identifier.
pub proof fn lemma_proof_values_field_order(v: RLNProofValuesView)
    ensures
        proof_values_encoding(v).len() == 192,
        proof_values_encoding(v).subrange(0, 32) == fr_encoding(v.root),
        proof_values_encoding(v).subrange(32, 64) == fr_encoding(v.epoch),
        proof_values_encoding(v).subrange(64, 96) == fr_encoding(v.x),
        proof_values_encoding(v).subrange(96, 128) == fr_encoding(v.y),
        proof_values_encoding(v).subrange(128, 160) == fr_encoding(v.nullifier),
        proof_values_encoding(v).subrange(160, 192) == fr_encoding(v.rln_identifier),
{
    let all = proof_values_encoding(v);
    lemma_le_bytes_len(v.root, 32);
    lemma_le_bytes_len(v.epoch, 32);
    lemma_le_bytes_len(v.x, 32);
    lemma_le_bytes_len(v.y, 32);
    lemma_le_bytes_len(v.nullifier, 32);
    lemma_le_bytes_len(v.rln_identifier, 32);
    assert(all.subrange(0, 32) =~= fr_encoding(v.root));
    assert(all.subrange(32, 64) =~= fr_encoding(v.epoch));
    assert(all.subrange(64, 96) =~= fr_encoding(v.x));
    assert(all.subrange(96, 128) =~= fr_encoding(v.y));
    assert(all.subrange(128, 160) =~= fr_encoding(v.nullifier));
    assert(all.subrange(160, 192) =~= fr_encoding(v.rln_identifier));
}

/// Decoding encoded public values gives the values back and reports 192
/// bytes as read, whatever follows them in the input.
///
/// This holds of all canonical values that carry the identifier of this
/// library.
pub proof fn lemma_proof_values_round_trip(v: RLNProofValuesView, rest: Seq<u8>)
    requires
        v.wf(),
        v.rln_identifier == rln_identifier_spec(),
    ensures
        parse_proof_values(proof_values_encoding(v) + rest) == Ok::<
            (RLNProofValuesView, nat),
            CodecError,
        >((v, 192)),
{
    let input = proof_values_encoding(v) + rest;
    let root = fr_encoding(v.root);
    let epoch = fr_encoding(v.epoch);
    let x = fr_encoding(v.x);
    let y = fr_encoding(v.y);
    let nullifier = fr_encoding(v.nullifier);
    let identifier = fr_encoding(v.rln_identifier);
    let empty = Seq::<u8>::empty();
    lemma_proof_values_field_order(v);
    lemma_le_bytes_len(v.root, 32);
    lemma_le_bytes_len(v.epoch, 32);
    lemma_le_bytes_len(v.x, 32);
    lemma_le_bytes_len(v.y, 32);
    lemma_le_bytes_len(v.nullifier, 32);

    assert(input =~= empty + root + (epoch + x + y + nullifier + identifier + rest));
    lemma_parse_fr_of_encoding(empty, v.root, epoch + x + y + nullifier + identifier + rest);
    assert(input =~= root + epoch + (x + y + nullifier + identifier + rest));
    lemma_parse_fr_of_encoding(root, v.epoch, x + y + nullifier + identifier + rest);
    assert(input =~= (root + epoch) + x + (y + nullifier + identifier + rest));
    lemma_parse_fr_of_encoding(root + epoch, v.x, y + nullifier + identifier + rest);
    assert(input =~= (root + epoch + x) + y + (nullifier + identifier + rest));
    lemma_parse_fr_of_encoding(root + epoch + x, v.y, nullifier + identifier + rest);
    assert(input =~= (root + epoch + x + y) + nullifier + (identifier + rest));
    lemma_parse_fr_of_encoding(root + epoch + x + y, v.nullifier, identifier + rest);
    assert(input =~= (root + epoch + x + y + nullifier) + identifier + rest);
    lemma_parse_fr_of_encoding(root + epoch + x + y + nullifier, v.rln_identifier, rest);

    assert(parse_fr(input, 0) == Some(v.root));
    assert(parse_fr(input, 32) == Some(v.epoch));
    assert(parse_fr(input, 64) == Some(v.x));
    assert(parse_fr(input, 96) == Some(v.y));
    assert(parse_fr(input, 128) == Some(v.nullifier));
    assert(parse_fr(input, 160) == Some(v.rln_identifier));
}

/// Decoding the encoded input blob of a prover gives its parts back,
/// whatever follows the blob in the input, and the offset that is reported
/// with them is where what follows starts.
pub proof fn lemma_prove_input_round_trip(
    identity_secret: nat,
    id_index: nat,
    epoch: nat,
    signal: Seq<u8>,
    rest: Seq<u8>,
)
    requires
        identity_secret < modulus(),
        epoch < modulus(),
        id_index < 0x1_0000_0000_0000_0000,
        signal.len() < 0x1_0000_0000_0000_0000,
    ensures
        parse_prove_input(prove_input_encoding(identity_secret, id_index, epoch, signal) + rest)
            == Some(ProveInputView { identity_secret, id_index, epoch, signal }),
        prove_input_len(ProveInputView { identity_secret, id_index, epoch, signal })
            == prove_input_encoding(identity_secret, id_index, epoch, signal).len(),
        (prove_input_encoding(identity_secret, id_index, epoch, signal) + rest).skip(
            prove_input_len(ProveInputView { identity_secret, id_index, epoch, signal }) as int,
        ) == rest,
{
    let encoding = prove_input_encoding(identity_secret, id_index, epoch, signal);
    let input = encoding + rest;
    let secret = fr_encoding(identity_secret);
    let index = le_bytes(id_index, 8);
    let epoch_bytes = fr_encoding(epoch);
    let signal_bytes = vec_u8_encoding(signal);
    let empty = Seq::<u8>::empty();
    lemma_le_bytes_len(identity_secret, 32);
    lemma_le_bytes_len(id_index, 8);
    lemma_le_bytes_len(epoch, 32);
    lemma_le_bytes_len(signal.len(), 8);

    assert(input =~= empty + secret + (index + epoch_bytes + signal_bytes + rest));
    lemma_parse_fr_of_encoding(empty, identity_secret, index + epoch_bytes + signal_bytes + rest);
    assert(input =~= secret + index + (epoch_bytes + signal_bytes + rest));
    lemma_parse_u64_of_encoding(secret, id_index, epoch_bytes + signal_bytes + rest);
    assert(input =~= (secret + index) + epoch_bytes + (signal_bytes + rest));
    lemma_parse_fr_of_encoding(secret + index, epoch, signal_bytes + rest);
    assert(input =~= (secret + index + epoch_bytes) + signal_bytes + rest);
    lemma_parse_vec_u8_of_encoding(secret + index + epoch_bytes, signal, rest);

    assert(parse_fr(input, 0) == Some(identity_secret));
    assert(parse_u64(input, 32) == Some(id_index));
    assert(parse_fr(input, 40) == Some(epoch));
    assert(parse_vec_u8(input, 72) == Some(signal));
    assert(encoding.len() == 80 + signal.len());
    assert(input.skip(encoding.len() as int) =~= rest);
}

/// Decoding the input blob of a verifier finds the public values at its
/// start, the 128 bytes of the proof behind them and the signal behind the
/// proof.
pub proof fn lemma_verify_input_round_trip(
    v: RLNProofValuesView,
    proof_bytes: Seq<u8>,
    signal: Seq<u8>,
    rest: Seq<u8>,
)
    requires
        v.wf(),
        v.rln_identifier == rln_identifier_spec(),
        proof_bytes.len() == proof_size(),
        signal.len() < 0x1_0000_0000_0000_0000,
    ensures
        parse_proof_data(
            verify_input_encoding(proof_values_encoding(v) + proof_bytes, signal) + rest,
        ) == Ok::<(RLNProofValuesView, nat, nat), CodecError>((v, 192, 320)),
        (verify_input_encoding(proof_values_encoding(v) + proof_bytes, signal) + rest).subrange(
            192,
            320,
        ) == proof_bytes,
        parse_vec_u8(
            verify_input_encoding(proof_values_encoding(v) + proof_bytes, signal) + rest,
            320,
        ) == Some(signal),
{
    let values = proof_values_encoding(v);
    let input = verify_input_encoding(values + proof_bytes, signal) + rest;
    lemma_proof_values_field_order(v);
    assert(input =~= values + (proof_bytes + vec_u8_encoding(signal) + rest));
    lemma_proof_values_round_trip(v, proof_bytes + vec_u8_encoding(signal) + rest);
    lemma_le_bytes_len(signal.len(), 8);
    assert(input.subrange(192, 320) =~= proof_bytes);
    assert(input =~= (values + proof_bytes) + vec_u8_encoding(signal) + rest);
    lemma_parse_vec_u8_of_encoding(values + proof_bytes, signal, rest);
}

/// Two messages of one identity in one epoch publish the same nullifier,
/// whatever their signals and Merkle paths are: this is how a second
/// message is noticed.
pub proof fn lemma_nullifier_is_fixed_by_the_epoch(w1: RLNWitnessInputView, w2: RLNWitnessInputView)
    requires
        w1.identity_secret == w2.identity_secret,
        w1.epoch == w2.epoch,
        w1.rln_identifier == w2.rln_identifier,
    ensures
        proof_values_spec(w1).nullifier == proof_values_spec(w2).nullifier,
{
}

/// The shares that two messages of one identity in one epoch publish give
/// the identity secret away, where the two messages differ in `x`.
///
/// The field is taken to have an inverse of `x_1 - x_2`, and the slope of
/// the identity to be canonical, as every Poseidon hash is.
pub proof fn lemma_recovery_from_proof_values(w1: RLNWitnessInputView, w2: RLNWitnessInputView)
    requires
        w1.wf(),
        w2.wf(),
        w1.identity_secret == w2.identity_secret,
        w1.epoch == w2.epoch,
        w1.rln_identifier == w2.rln_identifier,
        w1.x != w2.x,
        share_slope(
            w1.identity_secret,
            external_nullifier_spec(w1.epoch, w1.rln_identifier),
        ) < modulus(),
        exists|inverse: nat| is_field_inverse(field_sub(w1.x, w2.x), inverse),
    ensures
        compute_id_secret_spec(
            (proof_values_spec(w1).x, proof_values_spec(w1).y),
            (proof_values_spec(w2).x, proof_values_spec(w2).y),
            external_nullifier_spec(w1.epoch, w1.rln_identifier),
        ) == Ok::<nat, RecoveryError>(w1.identity_secret),
{
    lemma_share_recovery(
        w1.identity_secret,
        external_nullifier_spec(w1.epoch, w1.rln_identifier),
        w1.x,
        w2.x,
    );
}

/// The root among the proof values of a witness is the root that the Merkle
/// path gives for the commitment of the identity secret as its leaf: the
/// root of the membership tree that holds this commitment at the witnessed
/// leaf.
pub proof fn lemma_root_is_root_of_commitment(w: RLNWitnessInputView)
    ensures
        proof_values_spec(w).root == compute_tree_root_spec(
            id_commitment_spec(w.identity_secret),
            w.path_elements,
            w.identity_path_index,
            false,
        ),
        proof_values_spec(w).root == merkle_fold(
            id_commitment_spec(w.identity_secret),
            w.path_elements,
            w.identity_path_index,
            w.identity_path_index.len(),
        ),
{
}

/// A witness that was decoded is well-formed, carries the identifier of
/// this library, and took the whole input.
pub proof fn lemma_parsed_witness_is_well_formed(input: Seq<u8>)
    requires
        parse_witness(input) is Ok,
    ensures
        parse_witness(input).unwrap().0.wf(),
        parse_witness(input).unwrap().0.rln_identifier == rln_identifier_spec(),
        parse_witness(input).unwrap().1 == input.len(),
{
    let w = parse_witness(input).unwrap().0;
    let at_index: nat = 40 + 32 * w.path_elements.len();
    let at_x: nat = at_index + 8 + w.identity_path_index.len();
    lemma_parsed_fr_is_canonical(input, 0);
    lemma_parsed_fr_is_canonical(input, at_x);
    lemma_parsed_fr_is_canonical(input, at_x + 32);
    lemma_parsed_fr_is_canonical(input, at_x + 64);
    assert forall|i: int| 0 <= i < w.path_elements.len() implies #[trigger] w.path_elements[i]
        < modulus() by {
        lemma_mod_bound(
            crate::le::le_value(input.subrange(32 + 8 + 32 * i, 32 + 8 + 32 * i + 32)) as int,
            modulus() as int,
        );
    }
}

/// Public values that were decoded are canonical and carry the identifier
/// of this library.
pub proof fn lemma_parsed_proof_values_are_well_formed(input: Seq<u8>)
    requires
        parse_proof_values(input) is Ok,
    ensures
        parse_proof_values(input).unwrap().0.wf(),
        parse_proof_values(input).unwrap().0.rln_identifier == rln_identifier_spec(),
        parse_proof_values(input).unwrap().1 == 192,
{
    lemma_parsed_fr_is_canonical(input, 0);
    lemma_parsed_fr_is_canonical(input, 32);
    lemma_parsed_fr_is_canonical(input, 64);
    lemma_parsed_fr_is_canonical(input, 96);
    lemma_parsed_fr_is_canonical(input, 128);
    lemma_parsed_fr_is_canonical(input, 160);
}

/// A witness that is built from the input blob of a prover and a
/// well-formed path is well-formed.
pub proof fn lemma_prove_input_witness_is_well_formed(
    input: Seq<u8>,
    path_elements: Seq<nat>,
    identity_path_index: Seq<u8>,
)
    requires
        parse_prove_input(input) is Some,
        path_elements.len() == identity_path_index.len(),
        forall|i: int| 0 <= i < path_elements.len() ==> #[trigger] path_elements[i] < modulus(),
        forall|i: int| 0 <= i < identity_path_index.len() ==> identity_path_index[i] <= 1,
    ensures
        crate::protocol::prove_input_witness(
            parse_prove_input(input).unwrap(),
            path_elements,
            identity_path_index,
        ).wf(),
{
    lemma_parsed_fr_is_canonical(input, 0);
    lemma_parsed_fr_is_canonical(input, 40);
    lemma_hash_to_field_is_canonical(parse_prove_input(input).unwrap().signal);
    lemma_hash_to_field_is_canonical(crate::protocol::RLN_IDENTIFIER@);
}

/// What is read from an input is a canonical field element.
pub proof fn lemma_parsed_fr_is_canonical(input: Seq<u8>, at: nat)
    requires
        parse_fr(input, at) is Some,
    ensures
        parse_fr(input, at).unwrap() < modulus(),
{
    lemma_mod_bound(
        crate::le::le_value(input.subrange(at as int, at + 32 as int)) as int,
        modulus() as int,
    );
}

/// The field element that a signal hashes to is canonical.
pub proof fn lemma_hash_to_field_is_canonical(signal: Seq<u8>)
    ensures
        hash_to_field_spec(signal) < modulus(),
{
    lemma_mod_bound(
        crate::le::le_value(crate::hashes::keccak256_spec(signal)) as int,
        modulus() as int,
    );
}

/// The decimal digits of a number are ASCII digits, at least one of them.
pub proof fn lemma_decimal_digits_are_digits(n: nat)
    ensures
        decimal_digits(n).len() >= 1,
        forall|i: int|
            0 <= i < decimal_digits(n).len() ==> '0' <= #[trigger] decimal_digits(n)[i] <= '9',
    decreases n,
{
    if n >= 10 {
        lemma_decimal_digits_are_digits(n / 10);
    }
}

/// Reading the decimal digits of a number gives the number back.
pub proof fn lemma_decimal_digits_value(n: nat)
    ensures
        encode_utf8(decimal_digits(n)).len() == decimal_digits(n).len(),
        all_digits(encode_utf8(decimal_digits(n)), 10),
        digits_value(encode_utf8(decimal_digits(n)), 10) == n,
        encode_utf8(decimal_digits(n))[0] != 0x22,
    decreases n,
{
    let text = decimal_digits(n);
    let bytes = encode_utf8(text);
    lemma_decimal_digits_are_digits(n);
    is_ascii_chars_encode_utf8(text);
    assert forall|i: int| 0 <= i < bytes.len() implies digit_of(#[trigger] bytes[i], 10)
        is Some by {
        assert(bytes[i] == text[i] as u8);
    }
    if n < 10 {
        assert(bytes[0] == text[0] as u8);
        assert(bytes.drop_last() =~= Seq::<u8>::empty());
        assert(digits_value(bytes.drop_last(), 10) == 0);
    } else {
        let front = decimal_digits(n / 10);
        let front_bytes = encode_utf8(front);
        lemma_decimal_digits_value(n / 10);
        lemma_decimal_digits_are_digits(n / 10);
        is_ascii_chars_encode_utf8(front);
        assert forall|i: int| 0 <= i < front_bytes.len() implies bytes.drop_last()[i]
            == front_bytes[i] by {
            assert(bytes[i] == text[i] as u8);
            assert(front_bytes[i] == front[i] as u8);
        }
        assert(bytes.drop_last() =~= front_bytes);
        assert(bytes.last() == text.last() as u8);
        assert(bytes[0] == text[0] as u8);
    }
}

/// A decimal text of a canonical field element denotes that element.
pub proof fn lemma_decimal_member_of_decimal_digits(n: nat)
    requires
        n < modulus(),
    ensures
        decimal_member(decimal_digits(n)) == Some(n),
{
    let bytes = encode_utf8(decimal_digits(n));
    lemma_decimal_digits_value(n);
    lemma_decimal_digits_are_digits(n);
    assert(unquoted(bytes) == bytes);
    assert(number_digits(bytes, 10) == bytes);
    lemma_small_mod(n, modulus());
}

/// `16^n`.
pub open spec fn pow16(n: nat) -> nat
    decreases n,
{
    if n == 0 {
        1
    } else {
        16 * pow16((n - 1) as nat)
    }
}

/// The hexadecimal digits of a number are ASCII.
pub proof fn lemma_hex_digits_are_ascii(n: nat, width: nat)
    ensures
        hex_digits(n, width).len() == width,
        forall|i: int|
            0 <= i < width ==> digit_of((#[trigger] hex_digits(n, width)[i]) as u8, 16) is Some
                && '0' <= hex_digits(n, width)[i] <= 'f',
    decreases width,
{
    if width > 0 {
        lemma_hex_digits_are_ascii(n / 16, (width - 1) as nat);
    }
}

/// Reading the hexadecimal digits of a number that fits their width gives
/// the number back.
pub proof fn lemma_hex_digits_value(n: nat, width: nat, bytes: Seq<u8>)
    requires
        n < pow16(width),
        bytes.len() == width,
        forall|i: int| 0 <= i < width ==> #[trigger] bytes[i] == hex_digits(n, width)[i] as u8,
    ensures
        all_digits(bytes, 16),
        digits_value(bytes, 16) == n,
    decreases width,
{
    lemma_hex_digits_are_ascii(n, width);
    assert forall|i: int| 0 <= i < bytes.len() implies digit_of(#[trigger] bytes[i], 16)
        is Some by {
        assert(bytes[i] == hex_digits(n, width)[i] as u8);
    }
    if width > 0 {
        let front = bytes.drop_last();
        assert forall|i: int| 0 <= i < width - 1 implies #[trigger] front[i] == hex_digits(
            n / 16,
            (width - 1) as nat,
        )[i] as u8 by {
            assert(front[i] == bytes[i]);
        }
        lemma_hex_digits_value(n / 16, (width - 1) as nat, front);
        assert(bytes.last() == bytes[width - 1]);
        assert(bytes.last() == hex_digit_char(n % 16) as u8);
    }
}

/// The text of an epoch denotes that epoch.
pub proof fn lemma_hexadecimal_member_of_padded_hex(n: nat)
    requires
        n < modulus(),
    ensures
        hexadecimal_member(padded_hex_text(n)) == Some(n),
{
    let text = padded_hex_text(n);
    let bytes = encode_utf8(text);
    lemma_hex_digits_are_ascii(n, 64);
    assert forall|i: int| 0 <= i < text.len() implies '0' <= #[trigger] text[i] <= 'x' by {
        if i >= 2 {
            assert(text[i] == hex_digits(n, 64)[i - 2]);
        }
    }
    is_ascii_chars_encode_utf8(text);
    assert(bytes[0] == text[0] as u8);
    assert(bytes[1] == text[1] as u8);
    assert(bytes[65] == text[65] as u8);
    assert(text[65] == hex_digits(n, 64)[63]);
    assert(unquoted(bytes) == bytes);
    let digits = bytes.skip(2);
    assert(number_digits(bytes, 16) == digits);
    assert forall|i: int| 0 <= i < 64 implies #[trigger] digits[i] == hex_digits(n, 64)[i]
        as u8 by {
        assert(digits[i] == bytes[i + 2]);
        assert(bytes[i + 2] == text[i + 2] as u8);
    }
    assert(modulus() < pow16(64)) by {
        reveal_with_fuel(pow16, 65);
    }
    lemma_hex_digits_value(n, 64, digits);
    lemma_small_mod(n, modulus());
}

/// Reading the JSON inputs of a witness gives the witness back.
///
/// This holds of every well-formed witness that carries the identifier of
/// this library.
pub proof fn lemma_json_round_trip(w: RLNWitnessInputView)
    requires
        w.wf(),
        w.rln_identifier == rln_identifier_spec(),
    ensures
        witness_from_json_spec(json_inputs_spec(w)) == Ok::<RLNWitnessInputView, JsonError>(w),
{
    let j = json_inputs_spec(w);
    lemma_decimal_member_of_decimal_digits(w.identity_secret);
    lemma_decimal_member_of_decimal_digits(w.x);
    lemma_decimal_member_of_decimal_digits(w.rln_identifier);
    lemma_hexadecimal_member_of_padded_hex(w.epoch);
    assert forall|i: int| 0 <= i < j.path_elements.len() implies decimal_member(
        #[trigger] j.path_elements[i],
    ) == Some(w.path_elements[i]) by {
        lemma_decimal_member_of_decimal_digits(w.path_elements[i]);
    }
    assert forall|i: int| 0 <= i < j.identity_path_index.len() implies decimal_member(
        #[trigger] j.identity_path_index[i],
    ) == Some(w.identity_path_index[i] as nat) by {
        lemma_decimal_member_of_decimal_digits(w.identity_path_index[i] as nat);
    }
    assert(decimal_members(j.path_elements) =~= w.path_elements);
    let index_values = decimal_members(j.identity_path_index);
    assert forall|i: int| 0 <= i < index_values.len() implies #[trigger] index_values[i]
        == w.identity_path_index[i] as nat by {
        assert(decimal_member(j.identity_path_index[i]) == Some(w.identity_path_index[i] as nat));
    }
    assert(all_bit_values(index_values));
    assert(index_values.map_values(|v: nat| v as u8) =~= w.identity_path_index);
}

} // verus!
