//! Arbitrary-precision signed integers, as the circuit's witness calculator
//! takes and returns them, and the texts in which field elements are written
//! for tooling outside this library.
//!
//! An integer is held as a sign and a little-endian magnitude.  The texts are
//! produced by `num-bigint`.

use crate::field::{field_of_int, modulus, Fr};
use crate::le::{le_value, lemma_le_value_zeros};
use vstd::arithmetic::div_mod::lemma_sub_mod_noop_right;
use vstd::prelude::*;

verus! {

/// The decimal digit `d` as a character.
pub open spec fn decimal_digit_char(d: nat) -> char {
    if d == 0 {
        '0'
    } else if d == 1 {
        '1'
    } else if d == 2 {
        '2'
    } else if d == 3 {
        '3'
    } else if d == 4 {
        '4'
    } else if d == 5 {
        '5'
    } else if d == 6 {
        '6'
    } else if d == 7 {
        '7'
    } else if d == 8 {
        '8'
    } else {
        '9'
    }
}

/// The hexadecimal digit `d` as a lower-case character.
pub open spec fn hex_digit_char(d: nat) -> char {
    if d < 10 {
        decimal_digit_char(d)
    } else if d == 10 {
        'a'
    } else if d == 11 {
        'b'
    } else if d == 12 {
        'c'
    } else if d == 13 {
        'd'
    } else if d == 14 {
        'e'
    } else {
        'f'
    }
}

/// The decimal digits of `n`, without leading zeros; `0` for zero.
pub open spec fn decimal_digits(n: nat) -> Seq<char>
    decreases n,
{
    if n < 10 {
        seq![decimal_digit_char(n)]
    } else {
        decimal_digits(n / 10).push(decimal_digit_char(n % 10))
    }
}

/// The decimal text of a signed integer: a minus sign for a negative one,
/// then the digits of its magnitude.
pub open spec fn decimal_text(v: int) -> Seq<char> {
    if v < 0 {
        seq!['-'] + decimal_digits((-v) as nat)
    } else {
        decimal_digits(v as nat)
    }
}

/// The `width` low-order hexadecimal digits of `n`, most significant first.
pub open spec fn hex_digits(n: nat, width: nat) -> Seq<char>
    decreases width,
{
    if width == 0 {
        Seq::empty()
    } else {
        hex_digits(n / 16, (width - 1) as nat).push(hex_digit_char(n % 16))
    }
}

/// The text `0x` followed by 64 hexadecimal digits, which holds any number
/// below `2^256`.
pub open spec fn padded_hex_text(n: nat) -> Seq<char> {
    seq!['0', 'x'] + hex_digits(n, 64)
}

/// The integer of a sign and a magnitude.
pub open spec fn signed_value(negative: bool, magnitude: nat) -> int {
    if negative {
        -(magnitude as int)
    } else {
        magnitude as int
    }
}

/// The views of a sequence of integers.
pub open spec fn bigint_values(integers: Seq<BigInt>) -> Seq<int> {
    integers.map_values(|v: BigInt| v@)
}

/// An arbitrary-precision signed integer.
#[derive(Debug)]
pub struct BigInt {
    negative: bool,
    magnitude: Vec<u8>,
}

impl View for BigInt {
    type V = int;

    closed spec fn view(&self) -> int {
        signed_value(self.negative, le_value(self.magnitude@))
    }
}

/// A byte string with a byte that is not zero encodes a number that is not
/// zero.
pub proof fn lemma_le_value_positive(bytes: Seq<u8>, i: int)
    requires
        0 <= i < bytes.len(),
        bytes[i] != 0,
    ensures
        le_value(bytes) > 0,
    decreases bytes.len(),
{
    if i > 0 {
        lemma_le_value_positive(bytes.skip(1), i - 1);
    }
}

/// Whether every byte is zero.
fn is_all_zero(bytes: &[u8]) -> (r: bool)
    ensures
        r == (le_value(bytes@) == 0),
{
    let mut i: usize = 0;
    while i < bytes.len()
        invariant
            i <= bytes@.len(),
            forall|j: int| 0 <= j < i ==> bytes@[j] == 0,
        decreases bytes@.len() - i,
    {
        if bytes[i] != 0 {
            proof {
                lemma_le_value_positive(bytes@, i as int);
            }
            return false;
        }
        i = i + 1;
    }
    proof {
        lemma_le_value_zeros(bytes@);
    }
    true
}

impl BigInt {
    /// Zero is never held as negative.
    #[verifier::type_invariant]
    pub closed spec fn wf(self) -> bool {
        self.negative ==> le_value(self.magnitude@) > 0
    }

    /// The integer of the given sign and little-endian magnitude.
    pub fn from_bytes_le(negative: bool, magnitude: Vec<u8>) -> (r: BigInt)
        ensures
            r@ == signed_value(negative, le_value(magnitude@)),
    {
        let negative = negative && !is_all_zero(magnitude.as_slice());
        BigInt { negative, magnitude }
    }

    /// The integer `value`.
    pub fn from_u8(value: u8) -> (r: BigInt)
        ensures
            r@ == value as int,
    {
        let mut magnitude: Vec<u8> = Vec::new();
        magnitude.push(value);
        proof {
            assert(magnitude@.skip(1) =~= Seq::<u8>::empty());
            assert(le_value(magnitude@) == value as nat + 256 * le_value(magnitude@.skip(1)));
        }
        BigInt { negative: false, magnitude }
    }

    /// Whether the integer is below zero.
    pub fn is_negative(&self) -> (r: bool)
        ensures
            r == (self@ < 0),
    {
        proof {
            use_type_invariant(self);
        }
        self.negative
    }

    /// The little-endian bytes of the magnitude.
    pub fn magnitude_le(&self) -> (r: Vec<u8>)
        ensures
            le_value(r@) == (if self@ < 0 {
                -self@
            } else {
                self@
            }),
    {
        vstd::slice::slice_to_vec(self.magnitude.as_slice())
    }

    /// The decimal text of the integer.
    pub fn to_str_radix_10(&self) -> (text: String)
        ensures
            text@ == decimal_text(self@),
    {
        bigint_to_decimal(self.negative, self.magnitude.as_slice())
    }

    /// The field element `v mod p`; a negative `−k` goes to `p − (k mod p)`,
    /// and to zero where `k` is a multiple of `p`.
    pub fn to_field(&self) -> (r: Fr)
        ensures
            r@ == field_of_int(self@),
    {
        let reduced = Fr::from_le_bytes_mod_order(self.magnitude.as_slice());
        if self.negative {
            let zero = Fr::zero();
            proof {
                let m = le_value(self.magnitude@) as int;
                lemma_sub_mod_noop_right(0, m, modulus() as int);
            }
            zero.sub(&reduced)
        } else {
            reduced
        }
    }
}

/// The signed integer that stands for a field element: its representative in
/// `[0, p)`.
pub fn to_bigint(element: &Fr) -> (r: BigInt)
    ensures
        r@ == element@,
{
    let magnitude = element.to_bytes_le();
    proof {
        crate::utils::lemma_modulus_fits_32_bytes();
        use_type_invariant(element);
        element.lemma_canonical();
        crate::le::lemma_le_value_of_le_bytes(element@, 32);
    }
    BigInt { negative: false, magnitude }
}

/// The decimal text of a field element.
pub fn fr_to_decimal(element: &Fr) -> (text: String)
    ensures
        text@ == decimal_digits(element@),
{
    to_bigint(element).to_str_radix_10()
}

/// The text `0x` followed by the 64 hexadecimal digits of a field element.
pub fn fr_to_padded_hex(element: &Fr) -> (text: String)
    ensures
        text@ == padded_hex_text(element@),
{
    let magnitude = element.to_bytes_le();
    proof {
        crate::utils::lemma_modulus_fits_32_bytes();
        use_type_invariant(element);
        element.lemma_canonical();
        crate::le::lemma_le_value_of_le_bytes(element@, 32);
        crate::le::lemma_le_bytes_len(element@, 32);
    }
    bigint_to_padded_hex(magnitude.as_slice())
}

/// Calls `BigInt::from_bytes_le` and `BigInt::to_str_radix` of `num-bigint`
/// with radix 10.  Trusted: the text is made of a minus sign, where the
/// integer is negative, and the decimal digits of the magnitude without
/// leading zeros.
#[verifier::external_body]
pub(crate) fn bigint_to_decimal(negative: bool, magnitude: &[u8]) -> (text: String)
    ensures
        text@ == decimal_text(signed_value(negative, le_value(magnitude@))),
{
    let sign = if negative {
        num_bigint::Sign::Minus
    } else {
        num_bigint::Sign::Plus
    };
    num_bigint::BigInt::from_bytes_le(sign, magnitude).to_str_radix(10)
}

/// Formats a `BigInt` of `num-bigint` as lower-case hexadecimal, zero-padded
/// to 64 digits, behind `0x`.  Trusted: for a number below `2^256` the text
/// is `0x` and exactly 64 digits.
#[verifier::external_body]
pub(crate) fn bigint_to_padded_hex(magnitude: &[u8]) -> (text: String)
    requires
        magnitude@.len() <= 32,
    ensures
        text@ == padded_hex_text(le_value(magnitude@)),
{
    format!("0x{:064x}", num_bigint::BigInt::from_bytes_le(num_bigint::Sign::Plus, magnitude))
}

} // verus!
