//! Rate-Limiting Nullifier (RLN) protocol primitives over the BN254 scalar
//! field, with machine-checked contracts.

pub mod bigint;
pub mod field;
pub mod hashes;
pub mod identity;
pub mod json;
pub mod laws;
pub mod le;
pub mod protocol;
pub mod rng;
pub mod text;
pub mod utils;
pub mod zksnark;
