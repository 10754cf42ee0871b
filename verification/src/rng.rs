//! Sources of randomness: the thread-local generator for fresh secrets and
//! blinders, and ChaCha20 for keys that are derived from a seed.

use crate::field::Fr;
use vstd::prelude::*;

verus! {

/// The field element that is sampled at position `index`, counted from 0,
/// from ChaCha20 seeded with the 32 bytes `seed`.
pub uninterp spec fn chacha20_field_element_spec(seed: Seq<u8>, index: nat) -> nat;

/// Samples a field element with `UniformRand::rand` of `ark-std` from
/// `thread_rng`.  Nothing is promised of the outcome but its canonical form.
#[verifier::external_body]
pub(crate) fn random_field_element() -> (r: Fr) {
    let x: ark_bn254::Fr = ark_std::UniformRand::rand(&mut ark_std::rand::thread_rng());
    let repr = ark_ff::PrimeField::into_bigint(x);
    Fr { bytes: ark_ff::BigInteger::to_bytes_le(&repr).try_into().unwrap() }
}

/// Samples 32 bytes with `Rng::gen` of `rand` from `thread_rng`.  Nothing is
/// promised of the outcome.
#[verifier::external_body]
pub(crate) fn random_bytes32() -> (r: [u8; 32]) {
    rand::Rng::gen::<[u8; 32]>(&mut rand::thread_rng())
}

/// Samples from the range `0..2` with `Rng::gen_range` of `rand` from
/// `thread_rng`.  Trusted: the outcome lies in the range.
#[verifier::external_body]
pub(crate) fn random_bit() -> (r: u8)
    ensures
        r <= 1,
{
    rand::Rng::gen_range(&mut rand::thread_rng(), 0u8..2u8)
}

/// Seeds `ChaCha20Rng` of `rand_chacha` with `SeedableRng::from_seed` and
/// samples `count` field elements from it, one after the other, with
/// `UniformRand::rand` of `ark-std`.  Trusted: each element, in canonical
/// form, is a function of the seed and of its position alone, named
/// `chacha20_field_element_spec`.
#[verifier::external_body]
pub(crate) fn chacha20_field_elements(seed: &[u8; 32], count: usize) -> (r: Vec<Fr>)
    ensures
        r@.len() == count,
        forall|i: int|
            0 <= i < count ==> (#[trigger] r@[i])@ == chacha20_field_element_spec(seed@, i as nat),
{
    let mut rng = <rand_chacha::ChaCha20Rng as rand::SeedableRng>::from_seed(*seed);
    let mut elements: Vec<Fr> = Vec::new();
    for _ in 0..count {
        let x: ark_bn254::Fr = ark_std::UniformRand::rand(&mut rng);
        let repr = ark_ff::PrimeField::into_bigint(x);
        elements.push(Fr { bytes: ark_ff::BigInteger::to_bytes_le(&repr).try_into().unwrap() });
    }
    elements
}

} // verus!
