//! Identity credentials that are derived from a seed with SHA-256, as
//! Semaphore derives them.

use crate::field::{fr_values, modulus, Fr};
use crate::hashes::{
    hex_encode, hex_lower, poseidon_apply, poseidon_new, poseidon_spec, sha256, sha256_spec,
};
use crate::le::be_value;
use vstd::prelude::*;

verus! {

/// The label of the trapdoor, `identity_trapdoor` in ASCII.
pub const IDENTITY_TRAPDOOR: [u8; 17] = [
    0x69, 0x64, 0x65, 0x6e, 0x74, 0x69, 0x74, 0x79, 0x5f, 0x74, 0x72, 0x61, 0x70, 0x64, 0x6f,
    0x6f, 0x72,
];

/// The label of the nullifier, `identity_nullifier` in ASCII.
pub const IDENTITY_NULLIFIER: [u8; 18] = [
    0x69, 0x64, 0x65, 0x6e, 0x74, 0x69, 0x74, 0x79, 0x5f, 0x6e, 0x75, 0x6c, 0x6c, 0x69, 0x66,
    0x69, 0x65, 0x72,
];

/// The secret that a seed gives under a label: the SHA-256 digest of the
/// lower-case hexadecimal text of the seed's SHA-256 digest followed by the
/// label, read as a big-endian number and reduced modulo `p`.
pub open spec fn identity_part_spec(seed: Seq<u8>, label: Seq<u8>) -> nat {
    be_value(sha256_spec(hex_lower(sha256_spec(seed)) + label)) % modulus()
}

/// The trapdoor and the nullifier that a seed gives.
pub open spec fn identity_spec(seed: Seq<u8>) -> (nat, nat) {
    (identity_part_spec(seed, IDENTITY_TRAPDOOR@), identity_part_spec(seed, IDENTITY_NULLIFIER@))
}

/// The secret hash `Poseidon(nullifier, trapdoor)` of an identity.
pub open spec fn secret_hash_spec(trapdoor: nat, nullifier: nat) -> nat {
    poseidon_spec(seq![nullifier, trapdoor])
}

/// The commitment `Poseidon(secret_hash)` of an identity.
pub open spec fn commitment_spec(trapdoor: nat, nullifier: nat) -> nat {
    poseidon_spec(seq![secret_hash_spec(trapdoor, nullifier)])
}

/// An identity: two secrets, from which the secret hash and the commitment
/// are derived.
#[derive(Clone, Copy, PartialEq, Eq, Debug)]
pub struct Identity {
    pub trapdoor: Fr,
    pub nullifier: Fr,
}

/// The bytes in reverse order.
fn reversed(bytes: &[u8]) -> (out: Vec<u8>)
    ensures
        out@ == bytes@.reverse(),
{
    let len: usize = bytes.len();
    let mut out: Vec<u8> = Vec::new();
    let mut i: usize = 0;
    while i < len
        invariant
            i <= len,
            len == bytes@.len(),
            out@.len() == i,
            forall|j: int| 0 <= j < i ==> out@[j] == bytes@[len - 1 - j],
        decreases len - i,
    {
        out.push(bytes[len - 1 - i]);
        i = i + 1;
    }
    proof {
        assert(out@ =~= bytes@.reverse());
    }
    out
}

/// Derives one secret of an identity from the hexadecimal text of the seed's
/// digest and a label.
fn derive_part(seed_hash_hex: &[u8], label: &[u8]) -> (r: Fr)
    ensures
        r@ == be_value(sha256_spec(seed_hash_hex@ + label@)) % modulus(),
{
    let mut message: Vec<u8> = Vec::new();
    message.extend_from_slice(seed_hash_hex);
    message.extend_from_slice(label);
    proof {
        assert(message@ =~= seed_hash_hex@ + label@);
    }
    let digest = sha256(message.as_slice());
    let little_endian = reversed(digest.as_slice());
    Fr::from_le_bytes_mod_order(little_endian.as_slice())
}

impl Identity {
    /// The identity of a seed.
    pub fn new(seed: &[u8]) -> (id: Identity)
        ensures
            (id.trapdoor@, id.nullifier@) == identity_spec(seed@),
    {
        let seed_hash = sha256(seed);
        let seed_hash_hex = hex_encode(seed_hash.as_slice());

        let trapdoor = derive_part(seed_hash_hex.as_slice(), IDENTITY_TRAPDOOR.as_slice());
        let nullifier = derive_part(seed_hash_hex.as_slice(), IDENTITY_NULLIFIER.as_slice());

        Identity { trapdoor, nullifier }
    }

    /// The secret hash `Poseidon(nullifier, trapdoor)`.
    pub fn secret_hash(&self) -> (r: Fr)
        ensures
            r@ == secret_hash_spec(self.trapdoor@, self.nullifier@),
    {
        let hasher = poseidon_new();
        let inputs: [Fr; 2] = [self.nullifier, self.trapdoor];
        proof {
            assert(fr_values(inputs@) =~= seq![self.nullifier@, self.trapdoor@]);
        }
        poseidon_apply(&hasher, inputs.as_slice())
    }

    /// The commitment `Poseidon(secret_hash)`, the leaf of the identity in the
    /// membership tree.
    pub fn commitment(&self) -> (r: Fr)
        ensures
            r@ == commitment_spec(self.trapdoor@, self.nullifier@),
    {
        let hasher = poseidon_new();
        let secret: [Fr; 2] = [self.nullifier, self.trapdoor];
        proof {
            assert(fr_values(secret@) =~= seq![self.nullifier@, self.trapdoor@]);
        }
        let inputs: [Fr; 1] = [poseidon_apply(&hasher, secret.as_slice())];
        proof {
            assert(fr_values(inputs@) =~= seq![secret_hash_spec(self.trapdoor@, self.nullifier@)]);
        }
        poseidon_apply(&hasher, inputs.as_slice())
    }
}

/// The identity, its secret hash and its commitment are functions of the
/// seed alone: two equal seeds give the same credentials.
pub proof fn lemma_identity_is_deterministic(seed1: Seq<u8>, seed2: Seq<u8>)
    requires
        seed1 == seed2,
    ensures
        identity_spec(seed1) == identity_spec(seed2),
        secret_hash_spec(identity_spec(seed1).0, identity_spec(seed1).1) == secret_hash_spec(
            identity_spec(seed2).0,
            identity_spec(seed2).1,
        ),
        commitment_spec(identity_spec(seed1).0, identity_spec(seed1).1) == commitment_spec(
            identity_spec(seed2).0,
            identity_spec(seed2).1,
        ),
{
}

} // verus!
