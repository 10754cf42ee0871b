//! The field/byte codec: field elements as 32 little-endian bytes, and
//! vectors prefixed by a 64-bit little-endian count.
//!
//! Encoders are total.  Decoders read from the start of their input, reduce
//! every field element modulo `p`, and report how many bytes they consumed;
//! an input that ends too early is an error.

use crate::field::{fr_values, modulus, Fr};
use crate::le::{
    le_bytes, le_value, lemma_le_bytes_len, lemma_le_value_of_le_bytes, lemma_pow256_8, pow256,
    u64_from_le_bytes, u64_to_le_bytes,
};
use vstd::prelude::*;
use vstd::slice::slice_subrange;

verus! {

/// Why a serialized input was rejected.
#[derive(Clone, Copy, Debug, PartialEq, Eq, Structural)]
pub enum CodecError {
    /// The input ends before the value that is being read does.
    UnexpectedEnd,
    /// A standalone value was read and bytes are left over.
    TrailingBytes,
    /// The two length prefixes of a Merkle path disagree.
    LengthMismatch,
    /// A Merkle path index is neither 0 nor 1.
    InvalidPathIndex,
    /// The RLN identifier is not the one of this library.
    ForeignIdentifier,
}

/// Width in bytes of an encoded field element.
pub open spec fn fr_byte_size_spec() -> nat {
    32
}

/// The encoding of the field element `value`.
pub open spec fn fr_encoding(value: nat) -> Seq<u8> {
    le_bytes(value, 32)
}

/// The encodings of `values`, one after the other.
pub open spec fn fr_run_encoding(values: Seq<nat>) -> Seq<u8>
    decreases values.len(),
{
    if values.len() == 0 {
        Seq::empty()
    } else {
        fr_run_encoding(values.drop_last()) + fr_encoding(values.last())
    }
}

/// The encoding of a vector of field elements: its count, then its elements.
pub open spec fn vec_fr_encoding(values: Seq<nat>) -> Seq<u8> {
    le_bytes(values.len(), 8) + fr_run_encoding(values)
}

/// The encoding of a byte vector: its count, then its bytes.
pub open spec fn vec_u8_encoding(bytes: Seq<u8>) -> Seq<u8> {
    le_bytes(bytes.len(), 8) + bytes
}

/// The field element read at offset `at`, if 32 bytes are there.
pub open spec fn parse_fr(input: Seq<u8>, at: nat) -> Option<nat> {
    if at + 32 <= input.len() {
        Some(le_value(input.subrange(at as int, at + 32 as int)) % modulus())
    } else {
        None
    }
}

/// The 64-bit count read at offset `at`, if 8 bytes are there.
pub open spec fn parse_u64(input: Seq<u8>, at: nat) -> Option<nat> {
    if at + 8 <= input.len() {
        Some(le_value(input.subrange(at as int, at + 8 as int)))
    } else {
        None
    }
}

/// The vector of field elements read at offset `at`, if its count and all of
/// its elements are there.  It takes `8 + 32 * count` bytes.
pub open spec fn parse_vec_fr(input: Seq<u8>, at: nat) -> Option<Seq<nat>> {
    match parse_u64(input, at) {
        None => None,
        Some(count) => if at + 8 + 32 * count <= input.len() {
            Some(
                Seq::new(
                    count,
                    |i: int|
                        le_value(input.subrange(at + 8 + 32 * i, at + 8 + 32 * i + 32))
                            % modulus(),
                ),
            )
        } else {
            None
        },
    }
}

/// The byte vector read at offset `at`, if its count and all of its bytes are
/// there.  It takes `8 + count` bytes.
pub open spec fn parse_vec_u8(input: Seq<u8>, at: nat) -> Option<Seq<u8>> {
    match parse_u64(input, at) {
        None => None,
        Some(count) => if at + 8 + count <= input.len() {
            Some(input.subrange(at + 8 as int, at + 8 + count as int))
        } else {
            None
        },
    }
}

pub proof fn lemma_fr_run_encoding_len(values: Seq<nat>)
    ensures
        fr_run_encoding(values).len() == 32 * values.len(),
    decreases values.len(),
{
    if values.len() > 0 {
        lemma_fr_run_encoding_len(values.drop_last());
        lemma_le_bytes_len(values.last(), 32);
    }
}

/// The `i`-th block of 32 bytes of a run is the encoding of its `i`-th value.
pub proof fn lemma_fr_run_encoding_block(values: Seq<nat>, i: int)
    requires
        0 <= i < values.len(),
    ensures
        fr_run_encoding(values).len() == 32 * values.len(),
        fr_run_encoding(values).subrange(32 * i, 32 * i + 32) == fr_encoding(values[i]),
    decreases values.len(),
{
    let front = values.drop_last();
    lemma_fr_run_encoding_len(values);
    lemma_fr_run_encoding_len(front);
    lemma_le_bytes_len(values.last(), 32);
    let all = fr_run_encoding(values);
    if i == values.len() - 1 {
        assert(all.subrange(32 * i, 32 * i + 32) =~= fr_encoding(values.last()));
    } else {
        lemma_fr_run_encoding_block(front, i);
        assert(all.subrange(32 * i, 32 * i + 32) =~= fr_run_encoding(front).subrange(
            32 * i,
            32 * i + 32,
        ));
    }
}

/// Reading a canonical field element back from where it was written.
pub proof fn lemma_parse_fr_of_encoding(before: Seq<u8>, value: nat, after: Seq<u8>)
    requires
        value < modulus(),
    ensures
        parse_fr(before + fr_encoding(value) + after, before.len()) == Some(value),
{
    let input = before + fr_encoding(value) + after;
    lemma_le_bytes_len(value, 32);
    assert(input.subrange(before.len() as int, before.len() + 32 as int) =~= fr_encoding(value));
    lemma_modulus_fits_32_bytes();
    lemma_le_value_of_le_bytes(value, 32);
    assert(value % modulus() == value) by (nonlinear_arith)
        requires
            value < modulus(),
    ;
}

/// Reading a count back from where it was written.
pub proof fn lemma_parse_u64_of_encoding(before: Seq<u8>, count: nat, after: Seq<u8>)
    requires
        count < 0x1_0000_0000_0000_0000,
    ensures
        parse_u64(before + le_bytes(count, 8) + after, before.len()) == Some(count),
{
    let input = before + le_bytes(count, 8) + after;
    lemma_le_bytes_len(count, 8);
    assert(input.subrange(before.len() as int, before.len() + 8 as int) =~= le_bytes(count, 8));
    lemma_pow256_8();
    lemma_le_value_of_le_bytes(count, 8);
}

/// Reading a vector of canonical field elements back from where it was
/// written.
pub proof fn lemma_parse_vec_fr_of_encoding(before: Seq<u8>, values: Seq<nat>, after: Seq<u8>)
    requires
        values.len() < 0x1_0000_0000_0000_0000,
        forall|i: int| 0 <= i < values.len() ==> values[i] < modulus(),
    ensures
        parse_vec_fr(before + vec_fr_encoding(values) + after, before.len()) == Some(values),
        vec_fr_encoding(values).len() == 8 + 32 * values.len(),
{
    let input = before + vec_fr_encoding(values) + after;
    let at = before.len();
    let run = fr_run_encoding(values);
    lemma_le_bytes_len(values.len(), 8);
    lemma_fr_run_encoding_len(values);
    assert(input =~= before + le_bytes(values.len(), 8) + (run + after));
    lemma_parse_u64_of_encoding(before, values.len(), run + after);
    let parsed = parse_vec_fr(input, at).unwrap();
    assert(parsed.len() == values.len());
    assert forall|i: int| 0 <= i < values.len() implies parsed[i] == values[i] by {
        lemma_fr_run_encoding_block(values, i);
        assert(input.subrange(at + 8 + 32 * i, at + 8 + 32 * i + 32) =~= run.subrange(
            32 * i,
            32 * i + 32,
        ));
        lemma_modulus_fits_32_bytes();
        lemma_le_value_of_le_bytes(values[i], 32);
        assert(values[i] % modulus() == values[i]) by (nonlinear_arith)
            requires
                values[i] < modulus(),
        ;
    }
    assert(parsed =~= values);
}

/// Reading a byte vector back from where it was written.
pub proof fn lemma_parse_vec_u8_of_encoding(before: Seq<u8>, bytes: Seq<u8>, after: Seq<u8>)
    requires
        bytes.len() < 0x1_0000_0000_0000_0000,
    ensures
        parse_vec_u8(before + vec_u8_encoding(bytes) + after, before.len()) == Some(bytes),
        vec_u8_encoding(bytes).len() == 8 + bytes.len(),
{
    let input = before + vec_u8_encoding(bytes) + after;
    let at = before.len();
    lemma_le_bytes_len(bytes.len(), 8);
    assert(input =~= before + le_bytes(bytes.len(), 8) + (bytes + after));
    lemma_parse_u64_of_encoding(before, bytes.len(), bytes + after);
    assert(input.subrange(at + 8 as int, at + 8 + bytes.len() as int) =~= bytes);
}

/// `p < 256^32`: every field element fits 32 bytes.
pub proof fn lemma_modulus_fits_32_bytes()
    ensures
        modulus() < pow256(32),
{
    reveal_with_fuel(pow256, 33);
}

/// Width in bytes of an encoded field element.
pub fn fr_byte_size() -> (n: usize)
    ensures
        n == fr_byte_size_spec(),
{
    32
}

/// Encodes a field element as 32 little-endian bytes.
pub fn fr_to_bytes_le(input: &Fr) -> (out: Vec<u8>)
    ensures
        out@ == fr_encoding(input@),
{
    input.to_bytes_le()
}

/// Encodes a vector of field elements: a 64-bit little-endian count of
/// elements, then each element as 32 little-endian bytes.
pub fn vec_fr_to_bytes_le(input: &[Fr]) -> (out: Vec<u8>)
    ensures
        out@ == vec_fr_encoding(fr_values(input@)),
{
    let count: usize = input.len();
    let mut out: Vec<u8> = u64_to_le_bytes(count as u64);
    let ghost values = fr_values(input@);
    let mut i: usize = 0;
    while i < count
        invariant
            i <= count,
            count == input@.len(),
            values == fr_values(input@),
            out@ == le_bytes(count as nat, 8) + fr_run_encoding(values.take(i as int)),
        decreases count - i,
    {
        let mut element = input[i].to_bytes_le();
        proof {
            let next = values.take(i + 1);
            assert(next.drop_last() =~= values.take(i as int));
            assert(next.last() == input@[i as int]@);
            assert(out@ + element@ =~= le_bytes(count as nat, 8) + fr_run_encoding(next));
        }
        out.append(&mut element);
        i = i + 1;
    }
    proof {
        assert(values.take(count as int) =~= values);
    }
    out
}

/// Encodes a byte vector: a 64-bit little-endian count of bytes, then the
/// bytes.
pub fn vec_u8_to_bytes_le(input: &[u8]) -> (out: Vec<u8>)
    ensures
        out@ == vec_u8_encoding(input@),
{
    let count: usize = input.len();
    let mut out: Vec<u8> = u64_to_le_bytes(count as u64);
    out.extend_from_slice(input);
    out
}

/// Reads the field element that starts at offset `at`.
pub fn read_fr(input: &[u8], at: usize) -> (r: Option<Fr>)
    ensures
        match r {
            Some(element) => parse_fr(input@, at as nat) == Some(element@),
            None => parse_fr(input@, at as nat) is None,
        },
{
    let len: usize = input.len();
    if len < 32 || at > len - 32 {
        return None;
    }
    let block = slice_subrange(input, at, at + 32);
    Some(Fr::from_le_bytes_mod_order(block))
}

/// Reads the 64-bit count that starts at offset `at`.
pub fn read_u64(input: &[u8], at: usize) -> (r: Option<u64>)
    ensures
        match r {
            Some(count) => parse_u64(input@, at as nat) == Some(count as nat),
            None => parse_u64(input@, at as nat) is None,
        },
{
    let len: usize = input.len();
    if len < 8 || at > len - 8 {
        return None;
    }
    Some(u64_from_le_bytes(input, at))
}

/// Reads the vector of field elements that starts at offset `at`.
pub fn read_vec_fr(input: &[u8], at: usize) -> (r: Option<Vec<Fr>>)
    ensures
        match r {
            Some(elements) => parse_vec_fr(input@, at as nat) == Some(fr_values(elements@)),
            None => parse_vec_fr(input@, at as nat) is None,
        },
{
    let len: usize = input.len();
    let count: u64 = match read_u64(input, at) {
        Some(count) => count,
        None => { return None; },
    };
    let start: usize = at + 8;
    if count > ((len - start) / 32) as u64 {
        return None;
    }
    let count: usize = count as usize;
    let mut elements: Vec<Fr> = Vec::new();
    let ghost expected = parse_vec_fr(input@, at as nat).unwrap();
    let mut i: usize = 0;
    while i < count
        invariant
            i <= count,
            len == input@.len(),
            start == at + 8,
            start + 32 * count <= len,
            parse_vec_fr(input@, at as nat) == Some(expected),
            expected.len() == count,
            elements@.len() == i,
            fr_values(elements@) == expected.take(i as int),
        decreases count - i,
    {
        let block = slice_subrange(input, start + 32 * i, start + 32 * i + 32);
        let element = Fr::from_le_bytes_mod_order(block);
        let ghost before = elements@;
        elements.push(element);
        proof {
            assert(block@ == input@.subrange(at + 8 + 32 * i, at + 8 + 32 * i + 32));
            assert(expected[i as int] == element@);
            assert(elements@ == before.push(element));
            assert(fr_values(elements@).len() == i + 1);
            assert forall|j: int| 0 <= j < i + 1 implies fr_values(elements@)[j]
                == expected.take(i + 1)[j] by {
                if j < i {
                    assert(fr_values(before)[j] == before[j]@);
                    assert(fr_values(before)[j] == expected.take(i as int)[j]);
                }
            }
            assert(fr_values(elements@) =~= expected.take(i + 1));
        }
        i = i + 1;
    }
    proof {
        assert(expected.take(count as int) =~= expected);
    }
    Some(elements)
}

/// Reads the byte vector that starts at offset `at`.
pub fn read_vec_u8(input: &[u8], at: usize) -> (r: Option<Vec<u8>>)
    ensures
        match r {
            Some(bytes) => parse_vec_u8(input@, at as nat) == Some(bytes@),
            None => parse_vec_u8(input@, at as nat) is None,
        },
{
    let len: usize = input.len();
    let count: u64 = match read_u64(input, at) {
        Some(count) => count,
        None => { return None; },
    };
    let start: usize = at + 8;
    if count > (len - start) as u64 {
        return None;
    }
    let count: usize = count as usize;
    let block = slice_subrange(input, start, start + count);
    Some(vstd::slice::slice_to_vec(block))
}

/// Decodes a field element from the first 32 bytes of `input`, reducing it
/// modulo `p`, and reports the 32 bytes as consumed.
pub fn bytes_le_to_fr(input: &[u8]) -> (r: Result<(Fr, usize), CodecError>)
    ensures
        match r {
            Ok((element, read)) => parse_fr(input@, 0) == Some(element@) && read == 32,
            Err(e) => parse_fr(input@, 0) is None && e == CodecError::UnexpectedEnd,
        },
{
    match read_fr(input, 0) {
        Some(element) => Ok((element, 32)),
        None => Err(CodecError::UnexpectedEnd),
    }
}

/// Decodes a vector of field elements from the start of `input` and reports
/// the `8 + 32 * count` bytes as consumed.
pub fn bytes_le_to_vec_fr(input: &[u8]) -> (r: Result<(Vec<Fr>, usize), CodecError>)
    ensures
        match r {
            Ok((elements, read)) => parse_vec_fr(input@, 0) == Some(fr_values(elements@)) && read
                == 8 + 32 * elements@.len(),
            Err(e) => parse_vec_fr(input@, 0) is None && e == CodecError::UnexpectedEnd,
        },
{
    match read_vec_fr(input, 0) {
        Some(elements) => {
            let len: usize = input.len();
            proof {
                let count = parse_u64(input@, 0).unwrap();
                assert(fr_values(elements@).len() == count);
                assert(8 + 32 * count <= len);
            }
            let read: usize = 8 + 32 * elements.len();
            Ok((elements, read))
        },
        None => Err(CodecError::UnexpectedEnd),
    }
}

/// Decodes a byte vector from the start of `input` and reports the
/// `8 + count` bytes as consumed.
pub fn bytes_le_to_vec_u8(input: &[u8]) -> (r: Result<(Vec<u8>, usize), CodecError>)
    ensures
        match r {
            Ok((bytes, read)) => parse_vec_u8(input@, 0) == Some(bytes@) && read == 8
                + bytes@.len(),
            Err(e) => parse_vec_u8(input@, 0) is None && e == CodecError::UnexpectedEnd,
        },
{
    match read_vec_u8(input, 0) {
        Some(bytes) => {
            let len: usize = input.len();
            proof {
                let count = parse_u64(input@, 0).unwrap();
                assert(bytes@.len() == count);
                assert(8 + count <= len);
            }
            let read: usize = 8 + bytes.len();
            Ok((bytes, read))
        },
        None => Err(CodecError::UnexpectedEnd),
    }
}

} // verus!
