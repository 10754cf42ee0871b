//! Little-endian byte strings as natural numbers.
//!
//! Every wire format of this library is built from fixed-width little-endian
//! integers.  This module gives the mathematical reading of such a byte
//! string (`le_value`), the canonical encoding of a number in a given width
//! (`le_bytes`), the lemmas that relate the two, and the executable codec for
//! the 64-bit length prefixes.

use vstd::prelude::*;

verus! {

/// `256^n`.
pub open spec fn pow256(n: nat) -> nat
    decreases n,
{
    if n == 0 {
        1
    } else {
        256 * pow256((n - 1) as nat)
    }
}

/// The number that `bytes` encodes, least significant byte first.
pub open spec fn le_value(bytes: Seq<u8>) -> nat
    decreases bytes.len(),
{
    if bytes.len() == 0 {
        0
    } else {
        bytes[0] as nat + 256 * le_value(bytes.skip(1))
    }
}

/// The number that `bytes` encodes, most significant byte first.
pub open spec fn be_value(bytes: Seq<u8>) -> nat {
    le_value(bytes.reverse())
}

/// The `len` low-order bytes of `value`, least significant byte first.
pub open spec fn le_bytes(value: nat, len: nat) -> Seq<u8>
    decreases len,
{
    if len == 0 {
        Seq::empty()
    } else {
        seq![(value % 256) as u8] + le_bytes(value / 256, (len - 1) as nat)
    }
}

/// `256^n` is at least 1.
pub proof fn lemma_pow256_positive(n: nat)
    ensures
        pow256(n) >= 1,
    decreases n,
{
    if n > 0 {
        lemma_pow256_positive((n - 1) as nat);
    }
}

/// `256^(a + b) = 256^a * 256^b`.
pub proof fn lemma_pow256_add(a: nat, b: nat)
    ensures
        pow256(a + b) == pow256(a) * pow256(b),
    decreases a,
{
    if a == 0 {
        assert(pow256(0) == 1);
        assert(1 * pow256(b) == pow256(b));
    } else {
        lemma_pow256_add((a - 1) as nat, b);
        assert(((a + b) - 1) as nat == (a - 1) as nat + b);
        assert(pow256(a + b) == 256 * (pow256((a - 1) as nat) * pow256(b)));
        assert(256 * (pow256((a - 1) as nat) * pow256(b)) == (256 * pow256((a - 1) as nat))
            * pow256(b)) by (nonlinear_arith);
    }
}

/// `256^8 = 2^64`.
pub proof fn lemma_pow256_8()
    ensures
        pow256(8) == 0x1_0000_0000_0000_0000,
{
    reveal_with_fuel(pow256, 9);
}

/// An encoding in `len` bytes has `len` bytes.
pub proof fn lemma_le_bytes_len(value: nat, len: nat)
    ensures
        le_bytes(value, len).len() == len,
    decreases len,
{
    if len > 0 {
        lemma_le_bytes_len(value / 256, (len - 1) as nat);
    }
}

/// Decoding undoes encoding, for a number that fits the width.
pub proof fn lemma_le_value_of_le_bytes(value: nat, len: nat)
    requires
        value < pow256(len),
    ensures
        le_value(le_bytes(value, len)) == value,
    decreases len,
{
    if len > 0 {
        let rest = le_bytes(value / 256, (len - 1) as nat);
        let all = le_bytes(value, len);
        lemma_le_value_of_le_bytes(value / 256, (len - 1) as nat);
        assert(all.skip(1) =~= rest);
        assert(all[0] == (value % 256) as u8);
    }
}

/// Encoding undoes decoding.
pub proof fn lemma_le_bytes_of_le_value(bytes: Seq<u8>)
    ensures
        le_bytes(le_value(bytes), bytes.len()) == bytes,
    decreases bytes.len(),
{
    if bytes.len() > 0 {
        let v = le_value(bytes);
        let tail = bytes.skip(1);
        lemma_le_bytes_of_le_value(tail);
        assert(v % 256 == bytes[0] as nat);
        assert(v / 256 == le_value(tail));
        assert(le_bytes(v, bytes.len()) =~= bytes);
    } else {
        assert(le_bytes(le_value(bytes), bytes.len()) =~= bytes);
    }
}

/// Two byte strings of one length that encode the same number are equal.
pub proof fn lemma_le_value_injective(a: Seq<u8>, b: Seq<u8>)
    requires
        a.len() == b.len(),
        le_value(a) == le_value(b),
    ensures
        a == b,
{
    lemma_le_bytes_of_le_value(a);
    lemma_le_bytes_of_le_value(b);
}

/// A byte string of zeros encodes zero.
pub proof fn lemma_le_value_zeros(zeros: Seq<u8>)
    requires
        forall|i: int| 0 <= i < zeros.len() ==> zeros[i] == 0,
    ensures
        le_value(zeros) == 0,
    decreases zeros.len(),
{
    if zeros.len() > 0 {
        lemma_le_value_zeros(zeros.skip(1));
    }
}

/// Encodes `value` as 8 little-endian bytes.
pub fn u64_to_le_bytes(value: u64) -> (bytes: Vec<u8>)
    ensures
        bytes@ == le_bytes(value as nat, 8),
{
    let mut bytes: Vec<u8> = Vec::new();
    let mut rest: u64 = value;
    let mut i: usize = 0;
    while i < 8
        invariant
            i <= 8,
            bytes@.len() == i,
            bytes@ + le_bytes(rest as nat, (8 - i) as nat) == le_bytes(value as nat, 8),
        decreases 8 - i,
    {
        let low: u8 = (rest % 256) as u8;
        proof {
            let n = (8 - i) as nat;
            let high = le_bytes(rest as nat / 256, (n - 1) as nat);
            assert(le_bytes(rest as nat, n) == seq![low] + high);
            assert(bytes@.push(low) + high =~= bytes@ + (seq![low] + high));
        }
        bytes.push(low);
        rest = rest / 256;
        i = i + 1;
    }
    proof {
        assert(le_bytes(rest as nat, 0) =~= Seq::<u8>::empty());
        assert(bytes@ + Seq::<u8>::empty() =~= bytes@);
    }
    bytes
}

/// Decodes the 8 little-endian bytes that start at `at`.
pub fn u64_from_le_bytes(bytes: &[u8], at: usize) -> (value: u64)
    requires
        at + 8 <= bytes@.len(),
    ensures
        value as nat == le_value(bytes@.subrange(at as int, at + 8)),
{
    let len: usize = bytes.len();
    let mut value: u64 = 0;
    let mut i: usize = 8;
    while i > 0
        invariant
            i <= 8,
            at + 8 <= bytes@.len(),
            bytes@.len() == len,
            value as nat == le_value(bytes@.subrange(at + i, at + 8)),
            (value as nat) < pow256((8 - i) as nat),
        decreases i,
    {
        i = i - 1;
        let b: u8 = bytes[at + i];
        proof {
            let hi = bytes@.subrange(at + i + 1, at + 8);
            let all = bytes@.subrange(at + i, at + 8);
            assert(all.skip(1) =~= hi);
            assert(all[0] == b);
            assert(le_value(all) == b as nat + 256 * le_value(hi));
            lemma_pow256_8();
            lemma_pow256_add((8 - i - 1) as nat, (i + 1) as nat);
            lemma_pow256_positive((i + 1) as nat);
            let p = pow256((8 - i - 1) as nat);
            let q = pow256((i + 1) as nat);
            assert(q == 256 * pow256(i as nat));
            lemma_pow256_positive(i as nat);
            assert(p * 256 <= p * q) by (nonlinear_arith)
                requires
                    q >= 256,
                    p >= 0,
            ;
            assert(pow256((8 - i) as nat) == 256 * p);
            assert((value as nat) * 256 + 255 < 0x1_0000_0000_0000_0000) by (nonlinear_arith)
                requires
                    (value as nat) < p,
                    p * 256 <= p * q,
                    p * q == 0x1_0000_0000_0000_0000,
            ;
        }
        value = value * 256 + b as u64;
    }
    proof {
        assert(bytes@.subrange(at + 0, at + 8) =~= bytes@.subrange(at as int, at + 8));
    }
    value
}

} // verus!
