//! The hash primitives that the protocol is built on: Poseidon over the BN254
//! scalar field, Keccak-256 and SHA-256.
//!
//! Each is computed by an outside crate.  What a hash returns is not spelled
//! out here; it is given a name, and the contracts of this library speak of
//! that name.

use crate::field::{fr_values, Fr};
use vstd::prelude::*;

verus! {

/// The Keccak-256 digest of `input`; 32 bytes.
pub uninterp spec fn keccak256_spec(input: Seq<u8>) -> Seq<u8>;

/// The SHA-256 digest of `input`; 32 bytes.
pub uninterp spec fn sha256_spec(input: Seq<u8>) -> Seq<u8>;

/// The Poseidon hash of `inputs`, a field element in `[0, p)`.
pub uninterp spec fn poseidon_spec(inputs: Seq<nat>) -> nat;

/// The ASCII code of the lower-case hexadecimal digit for `nibble`.
pub open spec fn hex_digit(nibble: int) -> u8 {
    if nibble < 10 {
        (0x30 + nibble) as u8
    } else {
        (0x61 + nibble - 10) as u8
    }
}

/// The lower-case hexadecimal text of `bytes`, two ASCII digits for each
/// byte, high nibble first.
pub open spec fn hex_lower(bytes: Seq<u8>) -> Seq<u8> {
    Seq::new(
        2 * bytes.len(),
        |i: int|
            if i % 2 == 0 {
                hex_digit(bytes[i / 2] as int / 16)
            } else {
                hex_digit(bytes[i / 2] as int % 16)
            },
    )
}

/// The largest number of inputs that the Poseidon hasher takes.
pub open spec fn poseidon_max_inputs() -> nat {
    16
}

/// The Poseidon hasher of `poseidon-rs`: its round constants, loaded once
/// and never changed.
#[verifier::external_type_specification]
#[verifier::external_body]
pub struct ExPoseidon(poseidon_rs::Poseidon);

/// Calls `Poseidon::new` of `poseidon-rs`, which loads the round constants.
#[verifier::external_body]
pub(crate) fn poseidon_new() -> (hasher: poseidon_rs::Poseidon) {
    poseidon_rs::Poseidon::new()
}

/// Calls `Poseidon::hash` of `poseidon-rs`.  Trusted: for one to sixteen
/// inputs the call succeeds, and its result, in canonical form, is a function
/// of the inputs alone, named `poseidon_spec`.  The inputs are handed over by
/// their canonical representatives.
#[verifier::external_body]
pub(crate) fn poseidon_apply(hasher: &poseidon_rs::Poseidon, inputs: &[Fr]) -> (r: Fr)
    requires
        1 <= inputs@.len() <= poseidon_max_inputs(),
    ensures
        r@ == poseidon_spec(fr_values(inputs@)),
{
    let mut elements: Vec<poseidon_rs::Fr> = Vec::new();
    for e in inputs {
        let mut repr = poseidon_rs::FrRepr::default();
        ff_ce::PrimeFieldRepr::read_le(&mut repr, &e.bytes[..]).unwrap();
        elements.push(<poseidon_rs::Fr as ff_ce::PrimeField>::from_repr(repr).unwrap());
    }
    let digest = poseidon_rs::FrRepr::from(hasher.hash(elements).unwrap());
    let mut bytes = [0u8; 32];
    ff_ce::PrimeFieldRepr::write_le(&digest, &mut bytes[..]).unwrap();
    Fr { bytes }
}

/// Calls `Keccak::v256`, `update` and `finalize` of `tiny-keccak`.  Trusted:
/// the 32 bytes that come out are a function of the input alone, named
/// `keccak256_spec`.
#[verifier::external_body]
pub(crate) fn keccak256(input: &[u8]) -> (digest: [u8; 32])
    ensures
        digest@ == keccak256_spec(input@),
{
    let mut hasher = tiny_keccak::Keccak::v256();
    tiny_keccak::Hasher::update(&mut hasher, input);
    let mut digest = [0u8; 32];
    tiny_keccak::Hasher::finalize(hasher, &mut digest);
    digest
}

/// Calls `Sha256::digest` of `sha2`.  Trusted: the 32 bytes that come out are
/// a function of the input alone, named `sha256_spec`.
#[verifier::external_body]
pub(crate) fn sha256(input: &[u8]) -> (digest: [u8; 32])
    ensures
        digest@ == sha256_spec(input@),
{
    <sha2::Sha256 as sha2::Digest>::digest(input).into()
}

/// Calls `hex::encode`.  Trusted: the result is the lower-case hexadecimal
/// text of the input, two digits for each byte, handed back as ASCII bytes.
#[verifier::external_body]
pub(crate) fn hex_encode(bytes: &[u8]) -> (text: Vec<u8>)
    ensures
        text@ == hex_lower(bytes@),
{
    hex::encode(bytes).into_bytes()
}

/// The Poseidon hash of one to sixteen field elements.
pub fn poseidon_hash(inputs: &[Fr]) -> (r: Fr)
    requires
        1 <= inputs@.len() <= poseidon_max_inputs(),
    ensures
        r@ == poseidon_spec(fr_values(inputs@)),
{
    let hasher = poseidon_new();
    poseidon_apply(&hasher, inputs)
}

} // verus!
