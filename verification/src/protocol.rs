//! The RLN protocol: the witness of a message, the public values that are
//! derived from it, the Merkle root recomputation, key generation and the
//! recovery of a secret from two shares of one epoch.

use crate::field::{
    field_add, field_div, field_inv, field_mul, field_sub, fr_values, is_field_inverse,
    lemma_line_through_two_points, lemma_sub_mod_nonzero, modulus, Fr,
};
use crate::hashes::{
    keccak256, keccak256_spec, poseidon_apply, poseidon_new, poseidon_spec,
};
use crate::le::{le_bytes, le_value, u64_to_le_bytes};
use crate::utils::{
    fr_encoding, fr_to_bytes_le, parse_fr, parse_u64, parse_vec_fr, parse_vec_u8, read_fr,
    read_u64, read_vec_fr, read_vec_u8, vec_fr_encoding, vec_fr_to_bytes_le, vec_u8_encoding,
    vec_u8_to_bytes_le, CodecError,
};
use crate::rng::{
    chacha20_field_element_spec, chacha20_field_elements, random_bit, random_bytes32,
    random_field_element,
};
use vstd::arithmetic::div_mod::lemma_small_mod;
use vstd::prelude::*;

verus! {

/// The byte string that scopes this protocol instance,
/// `zerokit/rln/010203040506070809` in ASCII.
pub const RLN_IDENTIFIER: [u8; 30] = [
    0x7a, 0x65, 0x72, 0x6f, 0x6b, 0x69, 0x74, 0x2f, 0x72, 0x6c, 0x6e, 0x2f, 0x30, 0x31, 0x30,
    0x32, 0x30, 0x33, 0x30, 0x34, 0x30, 0x35, 0x30, 0x36, 0x30, 0x37, 0x30, 0x38, 0x30, 0x39,
];

/// The field element that a byte string is hashed to: its Keccak-256 digest,
/// read as a little-endian number and reduced modulo `p`.
pub open spec fn hash_to_field_spec(signal: Seq<u8>) -> nat {
    le_value(keccak256_spec(signal)) % modulus()
}

/// The field element that stands for this protocol instance in every witness.
pub open spec fn rln_identifier_spec() -> nat {
    hash_to_field_spec(RLN_IDENTIFIER@)
}

/// `Poseidon(epoch, rln_identifier)`, which pins a share to its epoch.
pub open spec fn external_nullifier_spec(epoch: nat, rln_identifier: nat) -> nat {
    poseidon_spec(seq![epoch, rln_identifier])
}

/// The slope `a_1 = Poseidon(a_0, external_nullifier)` of the line on which
/// the shares of one identity in one epoch lie.
pub open spec fn share_slope(identity_secret: nat, external_nullifier: nat) -> nat {
    poseidon_spec(seq![identity_secret, external_nullifier])
}

/// The share `y = a_0 + x * a_1` at the point `x`.
pub open spec fn share_y(identity_secret: nat, external_nullifier: nat, x: nat) -> nat {
    field_add(identity_secret, field_mul(x, share_slope(identity_secret, external_nullifier)))
}

/// One level of a Merkle path: the index bit says whether the sibling is the
/// right (0) or the left (other) child.
pub open spec fn merkle_step(node: nat, sibling: nat, index_bit: u8) -> nat {
    if index_bit == 0 {
        poseidon_spec(seq![node, sibling])
    } else {
        poseidon_spec(seq![sibling, node])
    }
}

/// The node reached from `start` after the first `levels` levels of a path,
/// leaf to root.
pub open spec fn merkle_fold(start: nat, path: Seq<nat>, index: Seq<u8>, levels: nat) -> nat
    decreases levels,
{
    if levels == 0 {
        start
    } else {
        merkle_step(
            merkle_fold(start, path, index, (levels - 1) as nat),
            path[levels - 1],
            index[levels - 1],
        )
    }
}

/// The root that a leaf and its Merkle path give.
pub open spec fn compute_tree_root_spec(
    leaf: nat,
    path: Seq<nat>,
    index: Seq<u8>,
    hash_leaf: bool,
) -> nat {
    merkle_fold(
        if hash_leaf {
            poseidon_spec(seq![leaf])
        } else {
            leaf
        },
        path,
        index,
        index.len(),
    )
}

/// Every index of a Merkle path is a bit.
pub open spec fn is_bit_path(index: Seq<u8>) -> bool {
    forall|i: int| 0 <= i < index.len() ==> index[i] <= 1
}

/// What a witness holds, as numbers.
pub struct RLNWitnessInputView {
    pub identity_secret: nat,
    pub path_elements: Seq<nat>,
    pub identity_path_index: Seq<u8>,
    pub x: nat,
    pub epoch: nat,
    pub rln_identifier: nat,
}

impl RLNWitnessInputView {
    /// The field elements are canonical, the path has one index for each
    /// sibling, and every index is a bit.
    pub open spec fn wf(self) -> bool {
        &&& self.identity_secret < modulus()
        &&& forall|i: int|
            0 <= i < self.path_elements.len() ==> #[trigger] self.path_elements[i] < modulus()
        &&& self.path_elements.len() == self.identity_path_index.len()
        &&& is_bit_path(self.identity_path_index)
        &&& self.x < modulus()
        &&& self.epoch < modulus()
        &&& self.rln_identifier < modulus()
    }
}

/// What the public values of a proof hold, as numbers.
pub struct RLNProofValuesView {
    pub y: nat,
    pub nullifier: nat,
    pub root: nat,
    pub x: nat,
    pub epoch: nat,
    pub rln_identifier: nat,
}

impl RLNProofValuesView {
    /// The field elements are canonical.
    pub open spec fn wf(self) -> bool {
        &&& self.y < modulus()
        &&& self.nullifier < modulus()
        &&& self.root < modulus()
        &&& self.x < modulus()
        &&& self.epoch < modulus()
        &&& self.rln_identifier < modulus()
    }
}

/// The public values that a witness gives.
pub open spec fn proof_values_spec(w: RLNWitnessInputView) -> RLNProofValuesView {
    let external_nullifier = external_nullifier_spec(w.epoch, w.rln_identifier);
    RLNProofValuesView {
        y: share_y(w.identity_secret, external_nullifier, w.x),
        nullifier: poseidon_spec(seq![share_slope(w.identity_secret, external_nullifier)]),
        root: compute_tree_root_spec(
            w.identity_secret,
            w.path_elements,
            w.identity_path_index,
            true,
        ),
        x: w.x,
        epoch: w.epoch,
        rln_identifier: w.rln_identifier,
    }
}

/// A membership proof as the Merkle tree hands it out: the siblings and the
/// index bits of one leaf, leaf to root.
#[derive(Debug, PartialEq)]
pub struct MerkleProof {
    path_elements: Vec<Fr>,
    path_index: Vec<u8>,
}

impl MerkleProof {
    /// There is one index for each sibling, and every index is a bit.
    #[verifier::type_invariant]
    pub closed spec fn wf(self) -> bool {
        &&& self.path_elements@.len() == self.path_index@.len()
        &&& is_bit_path(self.path_index@)
    }

    /// The siblings, leaf to root.
    pub closed spec fn spec_path_elements(self) -> Seq<nat> {
        fr_values(self.path_elements@)
    }

    /// The index bits, leaf to root.
    pub closed spec fn spec_path_index(self) -> Seq<u8> {
        self.path_index@
    }

    /// A membership proof of the given siblings and index bits, where there
    /// is one bit for each sibling.
    pub fn new(path_elements: Vec<Fr>, path_index: Vec<u8>) -> (r: Option<MerkleProof>)
        ensures
            r is Some <==> path_elements@.len() == path_index@.len() && is_bit_path(path_index@),
            r matches Some(proof) ==> proof.spec_path_elements() == fr_values(path_elements@)
                && proof.spec_path_index() == path_index@,
    {
        if path_elements.len() != path_index.len() {
            return None;
        }
        if !all_bits(path_index.as_slice()) {
            return None;
        }
        Some(MerkleProof { path_elements, path_index })
    }

    /// The siblings, leaf to root.
    pub fn get_path_elements(&self) -> (r: Vec<Fr>)
        ensures
            fr_values(r@) == self.spec_path_elements(),
            r@.len() == self.spec_path_index().len(),
    {
        proof {
            use_type_invariant(self);
        }
        copy_elements(self.path_elements.as_slice())
    }

    /// The index bits, leaf to root.
    pub fn get_path_index(&self) -> (r: Vec<u8>)
        ensures
            r@ == self.spec_path_index(),
            is_bit_path(r@),
    {
        proof {
            use_type_invariant(self);
        }
        vstd::slice::slice_to_vec(self.path_index.as_slice())
    }
}

/// Whether every byte is 0 or 1.
fn all_bits(index: &[u8]) -> (r: bool)
    ensures
        r == is_bit_path(index@),
{
    let mut i: usize = 0;
    while i < index.len()
        invariant
            i <= index@.len(),
            forall|j: int| 0 <= j < i ==> index@[j] <= 1,
        decreases index@.len() - i,
    {
        if index[i] > 1 {
            return false;
        }
        i = i + 1;
    }
    true
}

/// A copy of a run of field elements.
fn copy_elements(elements: &[Fr]) -> (r: Vec<Fr>)
    ensures
        r@ == elements@,
{
    let mut r: Vec<Fr> = Vec::new();
    let mut i: usize = 0;
    while i < elements.len()
        invariant
            i <= elements@.len(),
            r@ == elements@.take(i as int),
        decreases elements@.len() - i,
    {
        r.push(elements[i]);
        proof {
            assert(r@ =~= elements@.take(i + 1));
        }
        i = i + 1;
    }
    proof {
        assert(elements@.take(elements@.len() as int) =~= elements@);
    }
    r
}

/// The witness of one message: the identity secret, the Merkle path of its
/// commitment, the point `x` that the signal hashes to, the epoch and the
/// identifier of the protocol instance.
#[derive(Debug, PartialEq)]
pub struct RLNWitnessInput {
    identity_secret: Fr,
    path_elements: Vec<Fr>,
    identity_path_index: Vec<u8>,
    x: Fr,
    epoch: Fr,
    rln_identifier: Fr,
}

impl View for RLNWitnessInput {
    type V = RLNWitnessInputView;

    closed spec fn view(&self) -> RLNWitnessInputView {
        RLNWitnessInputView {
            identity_secret: self.identity_secret@,
            path_elements: fr_values(self.path_elements@),
            identity_path_index: self.identity_path_index@,
            x: self.x@,
            epoch: self.epoch@,
            rln_identifier: self.rln_identifier@,
        }
    }
}

impl RLNWitnessInput {
    /// There is one index for each sibling, and every index is a bit.
    #[verifier::type_invariant]
    pub closed spec fn wf(self) -> bool {
        &&& self.path_elements@.len() == self.identity_path_index@.len()
        &&& is_bit_path(self.identity_path_index@)
    }

    /// The witness of the given parts, where the path has one index bit for
    /// each sibling.
    pub(crate) fn from_parts(
        identity_secret: Fr,
        path_elements: Vec<Fr>,
        identity_path_index: Vec<u8>,
        x: Fr,
        epoch: Fr,
        rln_identifier: Fr,
    ) -> (w: RLNWitnessInput)
        requires
            path_elements@.len() == identity_path_index@.len(),
            is_bit_path(identity_path_index@),
        ensures
            w@ == (RLNWitnessInputView {
                identity_secret: identity_secret@,
                path_elements: fr_values(path_elements@),
                identity_path_index: identity_path_index@,
                x: x@,
                epoch: epoch@,
                rln_identifier: rln_identifier@,
            }),
    {
        RLNWitnessInput {
            identity_secret,
            path_elements,
            identity_path_index,
            x,
            epoch,
            rln_identifier,
        }
    }

    /// The identity secret `a_0`.
    pub fn identity_secret(&self) -> (r: Fr)
        ensures
            r@ == self@.identity_secret,
    {
        self.identity_secret
    }

    /// The siblings of the Merkle path, leaf to root.
    pub fn path_elements(&self) -> (r: Vec<Fr>)
        ensures
            fr_values(r@) == self@.path_elements,
    {
        copy_elements(self.path_elements.as_slice())
    }

    /// The index bits of the Merkle path, leaf to root.
    pub fn identity_path_index(&self) -> (r: Vec<u8>)
        ensures
            r@ == self@.identity_path_index,
    {
        vstd::slice::slice_to_vec(self.identity_path_index.as_slice())
    }

    /// The point `x` of the share.
    pub fn x(&self) -> (r: Fr)
        ensures
            r@ == self@.x,
    {
        self.x
    }

    /// The epoch.
    pub fn epoch(&self) -> (r: Fr)
        ensures
            r@ == self@.epoch,
    {
        self.epoch
    }

    /// The identifier of the protocol instance.
    pub fn rln_identifier(&self) -> (r: Fr)
        ensures
            r@ == self@.rln_identifier,
    {
        self.rln_identifier
    }
}

/// The public values of a proof.
#[derive(Clone, Copy, Debug, PartialEq)]
pub struct RLNProofValues {
    // Public outputs:
    pub y: Fr,
    pub nullifier: Fr,
    pub root: Fr,
    // Public inputs:
    pub x: Fr,
    pub epoch: Fr,
    pub rln_identifier: Fr,
}

impl View for RLNProofValues {
    type V = RLNProofValuesView;

    open spec fn view(&self) -> RLNProofValuesView {
        RLNProofValuesView {
            y: self.y@,
            nullifier: self.nullifier@,
            root: self.root@,
            x: self.x@,
            epoch: self.epoch@,
            rln_identifier: self.rln_identifier@,
        }
    }
}

/// Hashes a signal of any length to the field.
pub fn hash_to_field(signal: &[u8]) -> (r: Fr)
    ensures
        r@ == hash_to_field_spec(signal@),
{
    let digest = keccak256(signal);
    Fr::from_le_bytes_mod_order(digest.as_slice())
}

/// The Poseidon hash of one field element, with a hasher at hand.
fn poseidon_one(hasher: &poseidon_rs::Poseidon, a: Fr) -> (r: Fr)
    ensures
        r@ == poseidon_spec(seq![a@]),
{
    let inputs: [Fr; 1] = [a];
    proof {
        assert(fr_values(inputs@) =~= seq![a@]);
    }
    poseidon_apply(hasher, inputs.as_slice())
}

/// The Poseidon hash of two field elements, with a hasher at hand.
fn poseidon_two(hasher: &poseidon_rs::Poseidon, a: Fr, b: Fr) -> (r: Fr)
    ensures
        r@ == poseidon_spec(seq![a@, b@]),
{
    let inputs: [Fr; 2] = [a, b];
    proof {
        assert(fr_values(inputs@) =~= seq![a@, b@]);
    }
    poseidon_apply(hasher, inputs.as_slice())
}

/// Recomputes the root of the Merkle tree from a leaf and its path.
///
/// The leaf is hashed first if `hash_leaf` is set, as RLN requires.  Then the
/// path is walked from the leaf to the root: at each level the node is hashed
/// with its sibling, on the left where the index bit is 0 and on the right
/// otherwise.
pub fn compute_tree_root(
    leaf: &Fr,
    path_elements: &[Fr],
    identity_path_index: &[u8],
    hash_leaf: bool,
) -> (root: Fr)
    requires
        path_elements@.len() == identity_path_index@.len(),
    ensures
        root@ == compute_tree_root_spec(
            leaf@,
            fr_values(path_elements@),
            identity_path_index@,
            hash_leaf,
        ),
{
    let hasher = poseidon_new();
    tree_root_with(&hasher, leaf, path_elements, identity_path_index, hash_leaf)
}

/// The root of the Merkle tree from a leaf and its path, with a hasher at
/// hand.
fn tree_root_with(
    hasher: &poseidon_rs::Poseidon,
    leaf: &Fr,
    path_elements: &[Fr],
    identity_path_index: &[u8],
    hash_leaf: bool,
) -> (root: Fr)
    requires
        path_elements@.len() == identity_path_index@.len(),
    ensures
        root@ == compute_tree_root_spec(
            leaf@,
            fr_values(path_elements@),
            identity_path_index@,
            hash_leaf,
        ),
{
    let mut root: Fr = *leaf;
    if hash_leaf {
        root = poseidon_one(hasher, root);
    }
    let ghost start = root@;
    let ghost path = fr_values(path_elements@);
    let levels: usize = identity_path_index.len();
    let mut i: usize = 0;
    while i < levels
        invariant
            i <= levels,
            levels == identity_path_index@.len(),
            levels == path_elements@.len(),
            path == fr_values(path_elements@),
            root@ == merkle_fold(start, path, identity_path_index@, i as nat),
        decreases levels - i,
    {
        let sibling: Fr = path_elements[i];
        proof {
            assert(path[i as int] == sibling@);
        }
        if identity_path_index[i] == 0 {
            root = poseidon_two(hasher, root, sibling);
        } else {
            root = poseidon_two(hasher, sibling, root);
        }
        i = i + 1;
    }
    root
}

/// Derives the public values of a proof from its witness: the share `y`, the
/// nullifier of the epoch, and the root that the Merkle path leads to.
pub fn proof_values_from_witness(rln_witness: &RLNWitnessInput) -> (r: RLNProofValues)
    ensures
        r@ == proof_values_spec(rln_witness@),
{
    proof {
        use_type_invariant(rln_witness);
    }
    let hasher = poseidon_new();
    // y share
    let external_nullifier = poseidon_two(&hasher, rln_witness.epoch, rln_witness.rln_identifier);
    let a_0 = rln_witness.identity_secret;
    let a_1 = poseidon_two(&hasher, a_0, external_nullifier);
    let y = a_0.add(&rln_witness.x.mul(&a_1));

    // Nullifier
    let nullifier = poseidon_one(&hasher, a_1);

    // Merkle tree root computations
    let root = tree_root_with(
        &hasher,
        &rln_witness.identity_secret,
        rln_witness.path_elements.as_slice(),
        rln_witness.identity_path_index.as_slice(),
        true,
    );

    RLNProofValues {
        y,
        nullifier,
        root,
        x: rln_witness.x,
        epoch: rln_witness.epoch,
        rln_identifier: rln_witness.rln_identifier,
    }
}

/// Builds the witness of a message from the identity secret, the membership
/// proof of its commitment, the point `x` and the epoch.  The identifier is
/// the one of this library.
pub fn rln_witness_from_values(
    identity_secret: Fr,
    merkle_proof: &MerkleProof,
    x: Fr,
    epoch: Fr,
) -> (w: RLNWitnessInput)
    ensures
        w@ == (RLNWitnessInputView {
            identity_secret: identity_secret@,
            path_elements: merkle_proof.spec_path_elements(),
            identity_path_index: merkle_proof.spec_path_index(),
            x: x@,
            epoch: epoch@,
            rln_identifier: rln_identifier_spec(),
        }),
{
    let path_elements = merkle_proof.get_path_elements();
    let identity_path_index = merkle_proof.get_path_index();
    let rln_identifier = hash_to_field(RLN_IDENTIFIER.as_slice());

    RLNWitnessInput { identity_secret, path_elements, identity_path_index, x, epoch, rln_identifier }
}

/// A witness with a random identity secret, point, epoch and Merkle path of
/// `tree_height` levels, and the identifier of this library.
pub fn random_rln_witness(tree_height: usize) -> (w: RLNWitnessInput)
    ensures
        w@.path_elements.len() == tree_height,
        w@.identity_path_index.len() == tree_height,
        is_bit_path(w@.identity_path_index),
        w@.rln_identifier == rln_identifier_spec(),
{
    let identity_secret = hash_to_field(random_bytes32().as_slice());
    let x = hash_to_field(random_bytes32().as_slice());
    let epoch = hash_to_field(random_bytes32().as_slice());
    let rln_identifier = hash_to_field(RLN_IDENTIFIER.as_slice());

    let mut path_elements: Vec<Fr> = Vec::new();
    let mut identity_path_index: Vec<u8> = Vec::new();

    let mut i: usize = 0;
    while i < tree_height
        invariant
            i <= tree_height,
            path_elements@.len() == i,
            identity_path_index@.len() == i,
            is_bit_path(identity_path_index@),
        decreases tree_height - i,
    {
        path_elements.push(hash_to_field(random_bytes32().as_slice()));
        identity_path_index.push(random_bit());
        i = i + 1;
    }

    RLNWitnessInput { identity_secret, path_elements, identity_path_index, x, epoch, rln_identifier }
}

/// The commitment `Poseidon(secret_hash)` of an identity secret.
pub open spec fn id_commitment_spec(identity_secret_hash: nat) -> nat {
    poseidon_spec(seq![identity_secret_hash])
}

/// The secret `Poseidon(trapdoor, nullifier)` of the extended key
/// generation.
pub open spec fn extended_secret_hash_spec(trapdoor: nat, nullifier: nat) -> nat {
    poseidon_spec(seq![trapdoor, nullifier])
}

/// The seed of the generator from which a signal's keys are sampled: the
/// Keccak-256 digest of the signal.
pub open spec fn keygen_seed_spec(signal: Seq<u8>) -> Seq<u8> {
    keccak256_spec(signal)
}

/// Generates a pair `(identity_secret_hash, id_commitment)`: the secret is
/// sampled from the thread-local generator and the commitment is its Poseidon
/// hash.
pub fn keygen() -> (r: (Fr, Fr))
    ensures
        r.1@ == id_commitment_spec(r.0@),
{
    let hasher = poseidon_new();
    let identity_secret_hash = random_field_element();
    let id_commitment = poseidon_one(&hasher, identity_secret_hash);
    (identity_secret_hash, id_commitment)
}

/// Generates a tuple `(identity_trapdoor, identity_nullifier,
/// identity_secret_hash, id_commitment)`: trapdoor and nullifier are sampled
/// from the thread-local generator, the secret is the Poseidon hash of the
/// two and the commitment is the Poseidon hash of the secret.
pub fn extended_keygen() -> (r: (Fr, Fr, Fr, Fr))
    ensures
        r.2@ == extended_secret_hash_spec(r.0@, r.1@),
        r.3@ == id_commitment_spec(r.2@),
{
    let hasher = poseidon_new();
    let identity_trapdoor = random_field_element();
    let identity_nullifier = random_field_element();
    let identity_secret_hash = poseidon_two(&hasher, identity_trapdoor, identity_nullifier);
    let id_commitment = poseidon_one(&hasher, identity_secret_hash);
    (identity_trapdoor, identity_nullifier, identity_secret_hash, id_commitment)
}

/// Generates a pair `(identity_secret_hash, id_commitment)` from a seed: the
/// secret is the first element sampled from ChaCha20 seeded with the
/// Keccak-256 digest of `signal`.
pub fn seeded_keygen(signal: &[u8]) -> (r: (Fr, Fr))
    ensures
        r.0@ == chacha20_field_element_spec(keygen_seed_spec(signal@), 0),
        r.1@ == id_commitment_spec(r.0@),
{
    // ChaCha20 requires a seed of exactly 32 bytes: the signal is hashed to
    // one first.
    let seed = keccak256(signal);
    let sampled = chacha20_field_elements(&seed, 1);
    let hasher = poseidon_new();
    let identity_secret_hash = sampled[0];
    let id_commitment = poseidon_one(&hasher, identity_secret_hash);
    (identity_secret_hash, id_commitment)
}

/// Generates a tuple `(identity_trapdoor, identity_nullifier,
/// identity_secret_hash, id_commitment)` from a seed: trapdoor and nullifier
/// are the first two elements sampled from ChaCha20 seeded with the
/// Keccak-256 digest of `signal`.
pub fn extended_seeded_keygen(signal: &[u8]) -> (r: (Fr, Fr, Fr, Fr))
    ensures
        r.0@ == chacha20_field_element_spec(keygen_seed_spec(signal@), 0),
        r.1@ == chacha20_field_element_spec(keygen_seed_spec(signal@), 1),
        r.2@ == extended_secret_hash_spec(r.0@, r.1@),
        r.3@ == id_commitment_spec(r.2@),
{
    let seed = keccak256(signal);
    let sampled = chacha20_field_elements(&seed, 2);
    let hasher = poseidon_new();
    let identity_trapdoor = sampled[0];
    let identity_nullifier = sampled[1];
    let identity_secret_hash = poseidon_two(&hasher, identity_trapdoor, identity_nullifier);
    let id_commitment = poseidon_one(&hasher, identity_secret_hash);
    (identity_trapdoor, identity_nullifier, identity_secret_hash, id_commitment)
}

/// Why no secret was recovered from two shares.
#[derive(Clone, Copy, Debug, PartialEq, Eq, Structural)]
pub enum RecoveryError {
    /// The two shares have the same `x`: they fix no line.
    DegenerateShares,
    /// The line through the two shares is not the line of any identity at
    /// this external nullifier.
    NotSamePolynomial,
}

impl RecoveryError {
    /// A message that names the failure.
    pub fn message(&self) -> (s: String)
        ensures
            *self == RecoveryError::DegenerateShares ==> s@
                == "Cannot recover identity_secret_hash from two shares with the same x"@,
            *self == RecoveryError::NotSamePolynomial ==> s@
                == "Cannot recover identity_secret_hash from provided shares"@,
    {
        match self {
            RecoveryError::DegenerateShares => {
                "Cannot recover identity_secret_hash from two shares with the same x".to_string()
            },
            RecoveryError::NotSamePolynomial => {
                "Cannot recover identity_secret_hash from provided shares".to_string()
            },
        }
    }
}

/// What the recovery gives for two shares `(x, y)` and an external nullifier.
///
/// With `a_1 = (y_1 - y_2) / (x_1 - x_2)` and `a_0 = y_1 - x_1 * a_1`, the
/// secret `a_0` is recovered if `a_1` is the slope of `a_0` at this external
/// nullifier.
pub open spec fn compute_id_secret_spec(
    share1: (nat, nat),
    share2: (nat, nat),
    external_nullifier: nat,
) -> Result<nat, RecoveryError> {
    if share1.0 == share2.0 {
        Err(RecoveryError::DegenerateShares)
    } else {
        let a_1 = field_div(field_sub(share1.1, share2.1), field_sub(share1.0, share2.0));
        let a_0 = field_sub(share1.1, field_mul(share1.0, a_1));
        if share_slope(a_0, external_nullifier) == a_1 {
            Ok(a_0)
        } else {
            Err(RecoveryError::NotSamePolynomial)
        }
    }
}

/// The two shares are shares of `identity_secret` at `external_nullifier`, at
/// two different points.
pub open spec fn are_shares_of(
    identity_secret: nat,
    external_nullifier: nat,
    share1: (nat, nat),
    share2: (nat, nat),
) -> bool {
    &&& identity_secret < modulus()
    &&& share1.0 != share2.0
    &&& share1.1 == share_y(identity_secret, external_nullifier, share1.0)
    &&& share2.1 == share_y(identity_secret, external_nullifier, share2.0)
}

/// Two shares of one secret at one external nullifier give the secret back,
/// where the field has an inverse of `x_1 - x_2` and the slope is canonical.
pub proof fn lemma_share_recovery(
    identity_secret: nat,
    external_nullifier: nat,
    x1: nat,
    x2: nat,
)
    requires
        identity_secret < modulus(),
        x1 < modulus(),
        x2 < modulus(),
        x1 != x2,
        share_slope(identity_secret, external_nullifier) < modulus(),
        exists|inverse: nat| is_field_inverse(field_sub(x1, x2), inverse),
    ensures
        compute_id_secret_spec(
            (x1, share_y(identity_secret, external_nullifier, x1)),
            (x2, share_y(identity_secret, external_nullifier, x2)),
            external_nullifier,
        ) == Ok::<nat, RecoveryError>(identity_secret),
{
    let slope = share_slope(identity_secret, external_nullifier);
    let inverse = field_inv(field_sub(x1, x2));
    lemma_line_through_two_points(
        identity_secret as int,
        slope as int,
        x1 as int,
        x2 as int,
        inverse as int,
        modulus() as int,
    );
    lemma_small_mod(slope, modulus());
}

/// Recovers the identity secret from two shares that were published at one
/// external nullifier.
///
/// Two shares with the same `x` are rejected.  Otherwise the line through
/// the two shares is computed, and its intercept is returned if the slope is
/// the Poseidon hash of the intercept and the external nullifier.
pub fn compute_id_secret(share1: (Fr, Fr), share2: (Fr, Fr), external_nullifier: Fr) -> (r: Result<
    Fr,
    RecoveryError,
>)
    ensures
        match r {
            Ok(secret) => compute_id_secret_spec(
                (share1.0@, share1.1@),
                (share2.0@, share2.1@),
                external_nullifier@,
            ) == Ok::<nat, RecoveryError>(secret@),
            Err(e) => compute_id_secret_spec(
                (share1.0@, share1.1@),
                (share2.0@, share2.1@),
                external_nullifier@,
            ) == Err::<nat, RecoveryError>(e),
        },
        forall|identity_secret: nat| #[trigger]
            are_shares_of(
                identity_secret,
                external_nullifier@,
                (share1.0@, share1.1@),
                (share2.0@, share2.1@),
            ) ==> (r matches Ok(secret) && secret@ == identity_secret),
{
    // A share (x, y) of the secret a_0 satisfies y = a_0 + x * a_1, where
    // a_1 = Poseidon(a_0, external_nullifier).
    let (x1, y1) = share1;
    let (x2, y2) = share2;
    proof {
        use_type_invariant(&x1);
        use_type_invariant(&x2);
        x1.lemma_canonical();
        x2.lemma_canonical();
    }
    if x1.equals(&x2) {
        return Err(RecoveryError::DegenerateShares);
    }
    let dx = x1.sub(&x2);
    proof {
        lemma_sub_mod_nonzero(x1@ as int, x2@ as int, modulus() as int);
    }
    let dx_inverse = match dx.inverse() {
        Some(dx_inverse) => dx_inverse,
        None => {
            proof {
                assert(false);
            }
            return Err(RecoveryError::DegenerateShares);
        },
    };
    let a_1 = y1.sub(&y2).mul(&dx_inverse);
    let a_0 = y1.sub(&x1.mul(&a_1));

    // If the shares come from one line, a_0 is its intercept and a_1 is the
    // Poseidon hash of a_0 and the external nullifier.
    let hasher = poseidon_new();
    let computed_a_1 = poseidon_two(&hasher, a_0, external_nullifier);
    let recovered = a_1.equals(&computed_a_1);
    proof {
        use_type_invariant(&computed_a_1);
        computed_a_1.lemma_canonical();
        let inverse = dx_inverse@;
        assert forall|identity_secret: nat| #[trigger]
            are_shares_of(
                identity_secret,
                external_nullifier@,
                (share1.0@, share1.1@),
                (share2.0@, share2.1@),
            ) implies recovered && a_0@ == identity_secret by {
            let slope = share_slope(identity_secret, external_nullifier@);
            lemma_line_through_two_points(
                identity_secret as int,
                slope as int,
                x1@ as int,
                x2@ as int,
                inverse as int,
                modulus() as int,
            );
            assert(a_0@ == identity_secret);
            assert(computed_a_1@ == slope);
            lemma_small_mod(slope, modulus());
        }
    }
    if recovered {
        // The identity secret is recovered
        Ok(a_0)
    } else {
        Err(RecoveryError::NotSamePolynomial)
    }
}

/// The wire format of a witness:
/// `identity_secret ∥ path_elements ∥ identity_path_index ∥ x ∥ epoch ∥
/// rln_identifier`, the two vectors with their counts.
pub open spec fn witness_encoding(w: RLNWitnessInputView) -> Seq<u8> {
    fr_encoding(w.identity_secret) + vec_fr_encoding(w.path_elements) + vec_u8_encoding(
        w.identity_path_index,
    ) + fr_encoding(w.x) + fr_encoding(w.epoch) + fr_encoding(w.rln_identifier)
}

/// What decoding a standalone witness gives: the witness and the number of
/// bytes read, which is the whole input, or the reason of the rejection.
pub open spec fn parse_witness(input: Seq<u8>) -> Result<(RLNWitnessInputView, nat), CodecError> {
    let identity_secret = parse_fr(input, 0);
    let path_elements = parse_vec_fr(input, 32);
    if identity_secret is None || path_elements is None {
        Err(CodecError::UnexpectedEnd)
    } else {
        let at_index = 40 + 32 * path_elements.unwrap().len();
        let identity_path_index = parse_vec_u8(input, at_index);
        if identity_path_index is None {
            Err(CodecError::UnexpectedEnd)
        } else {
            let at_x = at_index + 8 + identity_path_index.unwrap().len();
            let x = parse_fr(input, at_x);
            let epoch = parse_fr(input, at_x + 32);
            let rln_identifier = parse_fr(input, at_x + 64);
            if rln_identifier is None {
                Err(CodecError::UnexpectedEnd)
            } else if at_x + 96 != input.len() {
                Err(CodecError::TrailingBytes)
            } else if path_elements.unwrap().len() != identity_path_index.unwrap().len() {
                Err(CodecError::LengthMismatch)
            } else if !is_bit_path(identity_path_index.unwrap()) {
                Err(CodecError::InvalidPathIndex)
            } else if rln_identifier.unwrap() != rln_identifier_spec() {
                Err(CodecError::ForeignIdentifier)
            } else {
                Ok(
                    (
                        RLNWitnessInputView {
                            identity_secret: identity_secret.unwrap(),
                            path_elements: path_elements.unwrap(),
                            identity_path_index: identity_path_index.unwrap(),
                            x: x.unwrap(),
                            epoch: epoch.unwrap(),
                            rln_identifier: rln_identifier.unwrap(),
                        },
                        input.len(),
                    ),
                )
            }
        }
    }
}

/// The wire format of the public values of a proof:
/// `root ∥ epoch ∥ x ∥ y ∥ nullifier ∥ rln_identifier`.
pub open spec fn proof_values_encoding(v: RLNProofValuesView) -> Seq<u8> {
    fr_encoding(v.root) + fr_encoding(v.epoch) + fr_encoding(v.x) + fr_encoding(v.y)
        + fr_encoding(v.nullifier) + fr_encoding(v.rln_identifier)
}

/// What decoding the public values of a proof from the start of `input`
/// gives: the values and the 192 bytes read, or the reason of the rejection.
pub open spec fn parse_proof_values(input: Seq<u8>) -> Result<
    (RLNProofValuesView, nat),
    CodecError,
> {
    if input.len() < 192 {
        Err(CodecError::UnexpectedEnd)
    } else if parse_fr(input, 160).unwrap() != rln_identifier_spec() {
        Err(CodecError::ForeignIdentifier)
    } else {
        Ok(
            (
                RLNProofValuesView {
                    y: parse_fr(input, 96).unwrap(),
                    nullifier: parse_fr(input, 128).unwrap(),
                    root: parse_fr(input, 0).unwrap(),
                    x: parse_fr(input, 64).unwrap(),
                    epoch: parse_fr(input, 32).unwrap(),
                    rln_identifier: parse_fr(input, 160).unwrap(),
                },
                192,
            ),
        )
    }
}

/// The input blob of a prover that holds the tree:
/// `identity_secret ∥ id_index ∥ epoch ∥ signal_len ∥ signal`.
pub open spec fn prove_input_encoding(
    identity_secret: nat,
    id_index: nat,
    epoch: nat,
    signal: Seq<u8>,
) -> Seq<u8> {
    fr_encoding(identity_secret) + le_bytes(id_index, 8) + fr_encoding(epoch) + vec_u8_encoding(
        signal,
    )
}

/// The input blob of a verifier: `proof_data ∥ signal_len ∥ signal`.
pub open spec fn verify_input_encoding(proof_data: Seq<u8>, signal: Seq<u8>) -> Seq<u8> {
    proof_data + vec_u8_encoding(signal)
}

/// What the input blob of a prover holds.
pub struct ProveInputView {
    pub identity_secret: nat,
    pub id_index: nat,
    pub epoch: nat,
    pub signal: Seq<u8>,
}

/// What decoding the input blob of a prover gives, if the input does not end
/// too early.  The signal starts at offset 80, behind its length.
pub open spec fn parse_prove_input(input: Seq<u8>) -> Option<ProveInputView> {
    let signal = parse_vec_u8(input, 72);
    if signal is None {
        None
    } else {
        Some(
            ProveInputView {
                identity_secret: parse_fr(input, 0).unwrap(),
                id_index: parse_u64(input, 32).unwrap(),
                epoch: parse_fr(input, 40).unwrap(),
                signal: signal.unwrap(),
            },
        )
    }
}

/// The number of bytes of the input blob of a prover: 80 bytes and the
/// signal.
pub open spec fn prove_input_len(input: ProveInputView) -> nat {
    32 + 8 + 32 + 8 + input.signal.len()
}

/// The number of bytes of a Groth16 proof over BN254 in compressed form.
pub open spec fn proof_size() -> nat {
    128
}

/// What decoding the proof data in front of a verifier's input gives: the
/// public values and the range of the bytes of the proof, which follows the
/// 192 bytes of the values, or the reason of the rejection.
pub open spec fn parse_proof_data(input: Seq<u8>) -> Result<
    (RLNProofValuesView, nat, nat),
    CodecError,
> {
    match parse_proof_values(input) {
        Err(e) => Err(e),
        Ok((values, read)) => if input.len() < read + proof_size() {
            Err(CodecError::UnexpectedEnd)
        } else {
            Ok((values, read, read + proof_size()))
        },
    }
}

/// The witness that the input blob of a prover and the membership proof of
/// its leaf give.
pub open spec fn prove_input_witness(
    input: ProveInputView,
    path_elements: Seq<nat>,
    identity_path_index: Seq<u8>,
) -> RLNWitnessInputView {
    RLNWitnessInputView {
        identity_secret: input.identity_secret,
        path_elements,
        identity_path_index,
        x: hash_to_field_spec(input.signal),
        epoch: input.epoch,
        rln_identifier: rln_identifier_spec(),
    }
}

/// Encodes a field element as 32 little-endian bytes.
pub fn serialize_field_element(element: Fr) -> (out: Vec<u8>)
    ensures
        out@ == fr_encoding(element@),
{
    fr_to_bytes_le(&element)
}

/// Decodes a field element from the first 32 bytes of `serialized`.
pub fn deserialize_field_element(serialized: Vec<u8>) -> (r: Result<Fr, CodecError>)
    ensures
        match r {
            Ok(element) => parse_fr(serialized@, 0) == Some(element@),
            Err(e) => parse_fr(serialized@, 0) is None && e == CodecError::UnexpectedEnd,
        },
{
    match read_fr(serialized.as_slice(), 0) {
        Some(element) => Ok(element),
        None => Err(CodecError::UnexpectedEnd),
    }
}

/// Decodes the pair `(identity_secret_hash, id_commitment)` from the first
/// 64 bytes of `serialized`.
pub fn deserialize_identity_pair(serialized: Vec<u8>) -> (r: Result<(Fr, Fr), CodecError>)
    ensures
        match r {
            Ok((identity_secret_hash, id_commitment)) => {
                &&& parse_fr(serialized@, 0) == Some(identity_secret_hash@)
                &&& parse_fr(serialized@, 32) == Some(id_commitment@)
            },
            Err(e) => serialized@.len() < 64 && e == CodecError::UnexpectedEnd,
        },
{
    let input = serialized.as_slice();
    let identity_secret_hash = match read_fr(input, 0) {
        Some(element) => element,
        None => { return Err(CodecError::UnexpectedEnd); },
    };
    let id_commitment = match read_fr(input, 32) {
        Some(element) => element,
        None => { return Err(CodecError::UnexpectedEnd); },
    };
    Ok((identity_secret_hash, id_commitment))
}

/// Decodes the tuple `(identity_trapdoor, identity_nullifier,
/// identity_secret_hash, id_commitment)` from the first 128 bytes of
/// `serialized`.
pub fn deserialize_identity_tuple(serialized: Vec<u8>) -> (r: Result<(Fr, Fr, Fr, Fr), CodecError>)
    ensures
        match r {
            Ok((identity_trapdoor, identity_nullifier, identity_secret_hash, id_commitment)) => {
                &&& parse_fr(serialized@, 0) == Some(identity_trapdoor@)
                &&& parse_fr(serialized@, 32) == Some(identity_nullifier@)
                &&& parse_fr(serialized@, 64) == Some(identity_secret_hash@)
                &&& parse_fr(serialized@, 96) == Some(id_commitment@)
            },
            Err(e) => serialized@.len() < 128 && e == CodecError::UnexpectedEnd,
        },
{
    let input = serialized.as_slice();
    let identity_trapdoor = match read_fr(input, 0) {
        Some(element) => element,
        None => { return Err(CodecError::UnexpectedEnd); },
    };
    let identity_nullifier = match read_fr(input, 32) {
        Some(element) => element,
        None => { return Err(CodecError::UnexpectedEnd); },
    };
    let identity_secret_hash = match read_fr(input, 64) {
        Some(element) => element,
        None => { return Err(CodecError::UnexpectedEnd); },
    };
    let id_commitment = match read_fr(input, 96) {
        Some(element) => element,
        None => { return Err(CodecError::UnexpectedEnd); },
    };
    Ok((identity_trapdoor, identity_nullifier, identity_secret_hash, id_commitment))
}

/// Encodes a witness in its wire format.
pub fn serialize_witness(rln_witness: &RLNWitnessInput) -> (serialized: Vec<u8>)
    ensures
        serialized@ == witness_encoding(rln_witness@),
{
    let mut serialized: Vec<u8> = Vec::new();

    serialized.append(&mut fr_to_bytes_le(&rln_witness.identity_secret));
    serialized.append(&mut vec_fr_to_bytes_le(rln_witness.path_elements.as_slice()));
    serialized.append(&mut vec_u8_to_bytes_le(rln_witness.identity_path_index.as_slice()));
    serialized.append(&mut fr_to_bytes_le(&rln_witness.x));
    serialized.append(&mut fr_to_bytes_le(&rln_witness.epoch));
    serialized.append(&mut fr_to_bytes_le(&rln_witness.rln_identifier));

    proof {
        assert(serialized@ =~= witness_encoding(rln_witness@));
    }
    serialized
}

/// Decodes a standalone witness.
///
/// The input is rejected if it ends too early, if bytes are left over, if
/// the Merkle path does not have one index bit for each sibling, or if the
/// identifier is not the one of this library.
pub fn deserialize_witness(serialized: &[u8]) -> (r: Result<(RLNWitnessInput, usize), CodecError>)
    ensures
        match r {
            Ok((w, read)) => parse_witness(serialized@) == Ok::<
                (RLNWitnessInputView, nat),
                CodecError,
            >((w@, read as nat)),
            Err(e) => parse_witness(serialized@) == Err::<(RLNWitnessInputView, nat), CodecError>(
                e,
            ),
        },
{
    let len: usize = serialized.len();

    let identity_secret = match read_fr(serialized, 0) {
        Some(element) => element,
        None => { return Err(CodecError::UnexpectedEnd); },
    };
    let path_elements = match read_vec_fr(serialized, 32) {
        Some(elements) => elements,
        None => { return Err(CodecError::UnexpectedEnd); },
    };
    proof {
        let count = parse_u64(serialized@, 32).unwrap();
        assert(fr_values(path_elements@).len() == count);
        assert(40 + 32 * count <= len);
    }
    let at_index: usize = 40 + 32 * path_elements.len();
    let identity_path_index = match read_vec_u8(serialized, at_index) {
        Some(bytes) => bytes,
        None => { return Err(CodecError::UnexpectedEnd); },
    };
    proof {
        let count = parse_u64(serialized@, at_index as nat).unwrap();
        assert(identity_path_index@.len() == count);
        assert(at_index + 8 + count <= len);
    }
    let at_x: usize = at_index + 8 + identity_path_index.len();
    let x = match read_fr(serialized, at_x) {
        Some(element) => element,
        None => { return Err(CodecError::UnexpectedEnd); },
    };
    let epoch = match read_fr(serialized, at_x + 32) {
        Some(element) => element,
        None => { return Err(CodecError::UnexpectedEnd); },
    };
    let rln_identifier = match read_fr(serialized, at_x + 64) {
        Some(element) => element,
        None => { return Err(CodecError::UnexpectedEnd); },
    };
    if at_x + 96 != len {
        return Err(CodecError::TrailingBytes);
    }
    if path_elements.len() != identity_path_index.len() {
        return Err(CodecError::LengthMismatch);
    }
    if !all_bits(identity_path_index.as_slice()) {
        return Err(CodecError::InvalidPathIndex);
    }
    let expected_identifier = hash_to_field(RLN_IDENTIFIER.as_slice());
    if !rln_identifier.equals(&expected_identifier) {
        return Err(CodecError::ForeignIdentifier);
    }
    Ok(
        (
            RLNWitnessInput {
                identity_secret,
                path_elements,
                identity_path_index,
                x,
                epoch,
                rln_identifier,
            },
            len,
        ),
    )
}

/// Encodes the public values of a proof in their wire format.
pub fn serialize_proof_values(rln_proof_values: &RLNProofValues) -> (serialized: Vec<u8>)
    ensures
        serialized@ == proof_values_encoding(rln_proof_values@),
{
    let mut serialized: Vec<u8> = Vec::new();

    serialized.append(&mut fr_to_bytes_le(&rln_proof_values.root));
    serialized.append(&mut fr_to_bytes_le(&rln_proof_values.epoch));
    serialized.append(&mut fr_to_bytes_le(&rln_proof_values.x));
    serialized.append(&mut fr_to_bytes_le(&rln_proof_values.y));
    serialized.append(&mut fr_to_bytes_le(&rln_proof_values.nullifier));
    serialized.append(&mut fr_to_bytes_le(&rln_proof_values.rln_identifier));

    proof {
        assert(serialized@ =~= proof_values_encoding(rln_proof_values@));
    }
    serialized
}

/// Decodes the public values of a proof from the first 192 bytes of
/// `serialized` and reports them as consumed.  What follows them, such as
/// the 128 bytes of the proof itself, is not read.
///
/// The input is rejected if it ends too early or if the identifier is not
/// the one of this library.
pub fn deserialize_proof_values(serialized: &[u8]) -> (r: Result<
    (RLNProofValues, usize),
    CodecError,
>)
    ensures
        match r {
            Ok((v, read)) => parse_proof_values(serialized@) == Ok::<
                (RLNProofValuesView, nat),
                CodecError,
            >((v@, read as nat)),
            Err(e) => parse_proof_values(serialized@) == Err::<
                (RLNProofValuesView, nat),
                CodecError,
            >(e),
        },
{
    if serialized.len() < 192 {
        return Err(CodecError::UnexpectedEnd);
    }
    let root = match read_fr(serialized, 0) {
        Some(element) => element,
        None => { return Err(CodecError::UnexpectedEnd); },
    };
    let epoch = match read_fr(serialized, 32) {
        Some(element) => element,
        None => { return Err(CodecError::UnexpectedEnd); },
    };
    let x = match read_fr(serialized, 64) {
        Some(element) => element,
        None => { return Err(CodecError::UnexpectedEnd); },
    };
    let y = match read_fr(serialized, 96) {
        Some(element) => element,
        None => { return Err(CodecError::UnexpectedEnd); },
    };
    let nullifier = match read_fr(serialized, 128) {
        Some(element) => element,
        None => { return Err(CodecError::UnexpectedEnd); },
    };
    let rln_identifier = match read_fr(serialized, 160) {
        Some(element) => element,
        None => { return Err(CodecError::UnexpectedEnd); },
    };
    let expected_identifier = hash_to_field(RLN_IDENTIFIER.as_slice());
    if !rln_identifier.equals(&expected_identifier) {
        return Err(CodecError::ForeignIdentifier);
    }
    Ok((RLNProofValues { y, nullifier, root, x, epoch, rln_identifier }, 192))
}

/// Encodes the input blob of a prover that holds the tree.
pub fn prepare_prove_input(
    identity_secret: Fr,
    id_index: usize,
    epoch: Fr,
    signal: &[u8],
) -> (serialized: Vec<u8>)
    ensures
        serialized@ == prove_input_encoding(
            identity_secret@,
            id_index as nat,
            epoch@,
            signal@,
        ),
{
    let mut serialized: Vec<u8> = Vec::new();

    serialized.append(&mut fr_to_bytes_le(&identity_secret));
    serialized.append(&mut u64_to_le_bytes(id_index as u64));
    serialized.append(&mut fr_to_bytes_le(&epoch));
    serialized.append(&mut vec_u8_to_bytes_le(signal));

    proof {
        assert(serialized@ =~= prove_input_encoding(
            identity_secret@,
            id_index as nat,
            epoch@,
            signal@,
        ));
    }
    serialized
}

/// Encodes the input blob of a verifier.
pub fn prepare_verify_input(proof_data: Vec<u8>, signal: &[u8]) -> (serialized: Vec<u8>)
    ensures
        serialized@ == verify_input_encoding(proof_data@, signal@),
{
    let mut serialized: Vec<u8> = proof_data;
    serialized.append(&mut vec_u8_to_bytes_le(signal));
    serialized
}

/// The index of the leaf that the input blob of a prover names.  The prover
/// resolves the membership proof of this leaf in its tree.
pub fn prove_input_leaf_index(serialized: &[u8]) -> (r: Result<u64, CodecError>)
    ensures
        match r {
            Ok(id_index) => parse_u64(serialized@, 32) == Some(id_index as nat),
            Err(e) => parse_u64(serialized@, 32) is None && e == CodecError::UnexpectedEnd,
        },
{
    match read_u64(serialized, 32) {
        Some(id_index) => Ok(id_index),
        None => Err(CodecError::UnexpectedEnd),
    }
}

/// Decodes the input blob of a prover and builds the witness of its message.
///
/// `merkle_proof` is the membership proof of the leaf that the blob names.
/// The point `x` is the hash of the signal, and the identifier is the one of
/// this library.  The offset that is reported is the end of the blob, 80
/// bytes and the signal: what follows the blob in the input starts there.
pub fn proof_inputs_to_rln_witness(merkle_proof: &MerkleProof, serialized: &[u8]) -> (r: Result<
    (RLNWitnessInput, usize),
    CodecError,
>)
    ensures
        match r {
            Ok((w, read)) => {
                &&& parse_prove_input(serialized@) is Some
                &&& w@ == prove_input_witness(
                    parse_prove_input(serialized@).unwrap(),
                    merkle_proof.spec_path_elements(),
                    merkle_proof.spec_path_index(),
                )
                &&& read == prove_input_len(parse_prove_input(serialized@).unwrap())
                &&& read <= serialized@.len()
            },
            Err(e) => parse_prove_input(serialized@) is None && e == CodecError::UnexpectedEnd,
        },
{
    let identity_secret = match read_fr(serialized, 0) {
        Some(element) => element,
        None => { return Err(CodecError::UnexpectedEnd); },
    };
    let epoch = match read_fr(serialized, 40) {
        Some(element) => element,
        None => { return Err(CodecError::UnexpectedEnd); },
    };
    let signal = match read_vec_u8(serialized, 72) {
        Some(bytes) => bytes,
        None => { return Err(CodecError::UnexpectedEnd); },
    };

    let len: usize = serialized.len();
    proof {
        let count = parse_u64(serialized@, 72).unwrap();
        assert(signal@.len() == count);
        assert(80 + count <= len);
    }
    let all_read: usize = 80 + signal.len();

    let path_elements = merkle_proof.get_path_elements();
    let identity_path_index = merkle_proof.get_path_index();

    let x = hash_to_field(signal.as_slice());

    let rln_identifier = hash_to_field(RLN_IDENTIFIER.as_slice());

    Ok(
        (
            RLNWitnessInput {
                identity_secret,
                path_elements,
                identity_path_index,
                x,
                epoch,
                rln_identifier,
            },
            all_read,
        ),
    )
}

/// Decodes the proof data that a verifier's input blob starts with: the 192
/// bytes of the public values, then the 128 bytes of the proof.  The public
/// values are returned with the range of the bytes of the proof, from its
/// first byte to the byte after its last.
///
/// The input is rejected if the public values are, or if it ends before the
/// proof does.
pub fn deserialize_proof_data(serialized: &[u8]) -> (r: Result<
    (RLNProofValues, usize, usize),
    CodecError,
>)
    ensures
        match r {
            Ok((v, start, end)) => parse_proof_data(serialized@) == Ok::<
                (RLNProofValuesView, nat, nat),
                CodecError,
            >((v@, start as nat, end as nat)),
            Err(e) => parse_proof_data(serialized@) == Err::<
                (RLNProofValuesView, nat, nat),
                CodecError,
            >(e),
        },
{
    let (values, read) = match deserialize_proof_values(serialized) {
        Ok(decoded) => decoded,
        Err(e) => { return Err(e); },
    };
    if serialized.len() - read < 128 {
        return Err(CodecError::UnexpectedEnd);
    }
    Ok((values, read, read + 128))
}

/// Decodes the input blob of a verifier: the proof data, then the signal
/// with its length.  The public values are returned with the range of the
/// bytes of the proof, the signal, and the number of bytes read.
pub fn deserialize_verify_input(serialized: &[u8]) -> (r: Result<
    (RLNProofValues, usize, usize, Vec<u8>, usize),
    CodecError,
>)
    ensures
        match r {
            Ok((v, start, end, signal, read)) => {
                &&& parse_proof_data(serialized@) == Ok::<
                    (RLNProofValuesView, nat, nat),
                    CodecError,
                >((v@, start as nat, end as nat))
                &&& parse_vec_u8(serialized@, end as nat) == Some(signal@)
                &&& read == end + 8 + signal@.len()
                &&& read <= serialized@.len()
            },
            Err(e) => match parse_proof_data(serialized@) {
                Err(first) => e == first,
                Ok((_, _, end)) => parse_vec_u8(serialized@, end) is None && e
                    == CodecError::UnexpectedEnd,
            },
        },
{
    let (values, start, end) = match deserialize_proof_data(serialized) {
        Ok(decoded) => decoded,
        Err(e) => { return Err(e); },
    };
    let signal = match read_vec_u8(serialized, end) {
        Some(bytes) => bytes,
        None => { return Err(CodecError::UnexpectedEnd); },
    };
    let len: usize = serialized.len();
    proof {
        let count = parse_u64(serialized@, end as nat).unwrap();
        assert(signal@.len() == count);
        assert(end + 8 + count <= len);
    }
    let read: usize = end + 8 + signal.len();
    Ok((values, start, end, signal, read))
}

} // verus!
