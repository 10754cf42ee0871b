//! The BN254 scalar field `F`.
//!
//! An element is held in its canonical form: the 32 little-endian bytes of
//! the representative in `[0, p)`.  Its view is that representative.  The
//! arithmetic itself is done by `ark-ff`; the contracts of the calls into it
//! are stated over the integers modulo `p`.

use crate::le::{le_bytes, le_value, lemma_le_bytes_of_le_value, lemma_le_value_injective};
use vstd::arithmetic::div_mod::{
    lemma_add_mod_noop_right, lemma_mod_add_multiples_vanish, lemma_mul_mod_noop_left,
    lemma_mul_mod_noop_right, lemma_small_mod, lemma_sub_mod_noop,
};
use vstd::prelude::*;

verus! {

/// The prime `p`, the order of the BN254 scalar field.
pub open spec fn modulus() -> nat {
    21888242871839275222246405745257275088548364400416034343698204186575808495617nat
}

/// `(a + b) mod p`.
pub open spec fn field_add(a: nat, b: nat) -> nat {
    (a + b) % modulus()
}

/// `(a - b) mod p`, in `[0, p)`.
pub open spec fn field_sub(a: nat, b: nat) -> nat {
    ((a as int - b as int) % (modulus() as int)) as nat
}

/// `(a * b) mod p`.
pub open spec fn field_mul(a: nat, b: nat) -> nat {
    (a * b) % modulus()
}

/// `v mod p` for a signed integer `v`, in `[0, p)`.
pub open spec fn field_of_int(v: int) -> nat {
    (v % (modulus() as int)) as nat
}

/// `r` is the inverse of `a` in the field.
pub open spec fn is_field_inverse(a: nat, r: nat) -> bool {
    r < modulus() && (r * a) % modulus() == 1
}

/// The inverse of `a` in the field, where `a` is not a multiple of `p`.
pub open spec fn field_inv(a: nat) -> nat {
    choose|r: nat| is_field_inverse(a, r)
}

/// `a / b` in the field, where `b` is not a multiple of `p`.
pub open spec fn field_div(a: nat, b: nat) -> nat {
    field_mul(a, field_inv(b))
}

/// The views of a sequence of field elements.
pub open spec fn fr_values(elements: Seq<Fr>) -> Seq<nat> {
    elements.map_values(|e: Fr| e@)
}

/// An element of the BN254 scalar field.
#[derive(Clone, Copy, Debug, PartialEq, Eq)]
pub struct Fr {
    pub(crate) bytes: [u8; 32],
}

impl View for Fr {
    type V = nat;

    /// The representative of the element in `[0, p)`.
    closed spec fn view(&self) -> nat {
        le_value(self.bytes@)
    }
}

impl Fr {
    /// The element is stored as its representative in `[0, p)`.
    #[verifier::type_invariant]
    pub closed spec fn is_canonical(self) -> bool {
        le_value(self.bytes@) < modulus()
    }

    /// The 32 little-endian bytes that the element is stored as.
    pub closed spec fn spec_bytes(self) -> Seq<u8> {
        self.bytes@
    }

    /// The stored bytes are the 32-byte encoding of the view.
    pub proof fn lemma_bytes(self)
        ensures
            self.spec_bytes() == le_bytes(self@, 32),
            self.spec_bytes().len() == 32,
    {
        lemma_le_bytes_of_le_value(self.bytes@);
    }

    /// Two elements with the same view are the same element.
    pub proof fn lemma_view_injective(self, other: Fr)
        requires
            self@ == other@,
        ensures
            self == other,
    {
        lemma_le_value_injective(self.bytes@, other.bytes@);
        assert(self.bytes =~= other.bytes);
    }

    /// The field's zero.
    pub fn zero() -> (r: Fr)
        ensures
            r@ == 0,
    {
        let bytes: [u8; 32] = [0u8; 32];
        proof {
            crate::le::lemma_le_value_zeros(bytes@);
        }
        Fr { bytes }
    }

    /// The 32 little-endian bytes of the element.
    pub fn to_bytes_le(&self) -> (out: Vec<u8>)
        ensures
            out@ == le_bytes(self@, 32),
    {
        proof {
            self.lemma_bytes();
        }
        let mut out: Vec<u8> = Vec::new();
        let mut i: usize = 0;
        while i < 32
            invariant
                i <= 32,
                out@ == self.bytes@.subrange(0, i as int),
            decreases 32 - i,
        {
            out.push(self.bytes[i]);
            proof {
                assert(out@ =~= self.bytes@.subrange(0, i + 1));
            }
            i = i + 1;
        }
        proof {
            assert(self.bytes@.subrange(0, 32) =~= self.bytes@);
        }
        out
    }

    /// Whether two elements are the same element of the field.
    pub fn equals(&self, other: &Fr) -> (r: bool)
        ensures
            r == (self@ == other@),
            r == (*self == *other),
    {
        let mut i: usize = 0;
        while i < 32
            invariant
                i <= 32,
                forall|j: int| 0 <= j < i ==> self.bytes@[j] == other.bytes@[j],
            decreases 32 - i,
        {
            if self.bytes[i] != other.bytes[i] {
                proof {
                    if self@ == other@ {
                        self.lemma_view_injective(*other);
                    }
                }
                return false;
            }
            i = i + 1;
        }
        proof {
            assert(self.bytes@ =~= other.bytes@);
            assert(self.bytes =~= other.bytes);
        }
        true
    }

    /// Whether the element is the field's zero.
    pub fn is_zero(&self) -> (r: bool)
        ensures
            r == (self@ == 0),
    {
        let zero = Fr::zero();
        self.equals(&zero)
    }

    /// The element that the little-endian number in `bytes` reduces to.
    pub fn from_le_bytes_mod_order(bytes: &[u8]) -> (r: Fr)
        ensures
            r@ == le_value(bytes@) % modulus(),
    {
        reduce_le_bytes(bytes)
    }

    /// The element `value mod p`.
    pub fn from_u64(value: u64) -> (r: Fr)
        ensures
            r@ == value as nat,
    {
        let bytes = crate::le::u64_to_le_bytes(value);
        proof {
            crate::le::lemma_pow256_8();
            crate::le::lemma_le_value_of_le_bytes(value as nat, 8);
        }
        reduce_le_bytes(bytes.as_slice())
    }

    /// Sum in the field.
    pub fn add(&self, other: &Fr) -> (r: Fr)
        ensures
            r@ == field_add(self@, other@),
    {
        ark_add(self, other)
    }

    /// Difference in the field.
    pub fn sub(&self, other: &Fr) -> (r: Fr)
        ensures
            r@ == field_sub(self@, other@),
    {
        ark_sub(self, other)
    }

    /// Product in the field.
    pub fn mul(&self, other: &Fr) -> (r: Fr)
        ensures
            r@ == field_mul(self@, other@),
    {
        ark_mul(self, other)
    }

    /// The inverse in the field; zero has none.
    pub fn inverse(&self) -> (r: Option<Fr>)
        ensures
            self@ == 0 ==> r is None,
            self@ != 0 ==> r is Some && r.unwrap()@ == field_inv(self@) && is_field_inverse(
                self@,
                r.unwrap()@,
            ),
    {
        proof {
            use_type_invariant(self);
            lemma_small_mod(self@, modulus());
        }
        let r = ark_inverse(self);
        proof {
            if self@ != 0 {
                let found = r.unwrap()@;
                let chosen = field_inv(self@);
                assert(is_field_inverse(self@, found));
                lemma_inverse_mod_unique(
                    self@ as int,
                    found as int,
                    chosen as int,
                    modulus() as int,
                );
            }
        }
        r
    }

    /// The quotient in the field, where the divisor is not zero.
    pub fn div(&self, other: &Fr) -> (r: Option<Fr>)
        ensures
            other@ == 0 ==> r is None,
            other@ != 0 ==> r is Some && r.unwrap()@ == field_div(self@, other@),
    {
        match other.inverse() {
            Some(inverse) => Some(self.mul(&inverse)),
            None => None,
        }
    }

    /// The representative of the element is below `p`.
    pub proof fn lemma_canonical(self)
        requires
            self.is_canonical(),
        ensures
            self@ < modulus(),
    {
    }
}

/// `(a - b) mod m` is not zero for two different residues `a` and `b`.
pub proof fn lemma_sub_mod_nonzero(a: int, b: int, m: int)
    requires
        0 <= a < m,
        0 <= b < m,
        a != b,
    ensures
        (a - b) % m != 0,
{
    if a > b {
        lemma_small_mod((a - b) as nat, m as nat);
    } else {
        lemma_mod_add_multiples_vanish(a - b, m);
        lemma_small_mod((m + (a - b)) as nat, m as nat);
    }
}

/// A residue has at most one inverse modulo `m`.
pub proof fn lemma_inverse_mod_unique(a: int, r1: int, r2: int, m: int)
    requires
        0 < m,
        0 <= r1 < m,
        0 <= r2 < m,
        (r1 * a) % m == 1,
        (r2 * a) % m == 1,
    ensures
        r1 == r2,
{
    // r1 = r1 * (r2 * a) = (r1 * a) * r2 = r2, all modulo m
    lemma_small_mod(r1 as nat, m as nat);
    lemma_small_mod(r2 as nat, m as nat);
    lemma_mul_mod_noop_right(r1, r2 * a, m);
    assert((r1 * (r2 * a)) % m == (r1 * 1) % m);
    lemma_mul_mod_noop_left(r1 * a, r2, m);
    assert(((r1 * a) * r2) % m == (1 * r2) % m);
    assert(r1 * (r2 * a) == (r1 * a) * r2) by (nonlinear_arith);
}

/// Two points of the line `y = a_0 + x * a_1` over the integers modulo `m`
/// give the line back: the slope is `(y_1 - y_2) / (x_1 - x_2)` and the
/// intercept is `y_1 - x_1 * slope`.
pub proof fn lemma_line_through_two_points(
    a0: int,
    a1: int,
    x1: int,
    x2: int,
    inv: int,
    m: int,
)
    requires
        0 < m,
        0 <= a0 < m,
        (inv * ((x1 - x2) % m)) % m == 1,
    ensures
        ({
            let y1 = (a0 + (x1 * a1) % m) % m;
            let y2 = (a0 + (x2 * a1) % m) % m;
            let slope = (((y1 - y2) % m) * inv) % m;
            &&& slope == a1 % m
            &&& (y1 - (x1 * slope) % m) % m == a0
        }),
{
    let y1 = (a0 + (x1 * a1) % m) % m;
    let y2 = (a0 + (x2 * a1) % m) % m;
    let dy = (y1 - y2) % m;
    let slope = (dy * inv) % m;
    // y_i = a0 + x_i * a1
    lemma_add_mod_noop_right(a0, x1 * a1, m);
    lemma_add_mod_noop_right(a0, x2 * a1, m);
    assert(y1 == (a0 + x1 * a1) % m);
    assert(y2 == (a0 + x2 * a1) % m);
    // dy = (x1 - x2) * a1
    lemma_sub_mod_noop(a0 + x1 * a1, a0 + x2 * a1, m);
    assert((a0 + x1 * a1) - (a0 + x2 * a1) == (x1 - x2) * a1) by (nonlinear_arith);
    assert(dy == ((x1 - x2) * a1) % m);
    // slope = (x1 - x2) * a1 * inv = a1 * ((x1 - x2) * inv) = a1
    lemma_mul_mod_noop_left((x1 - x2) * a1, inv, m);
    assert(slope == (((x1 - x2) * a1) * inv) % m);
    assert(((x1 - x2) * a1) * inv == a1 * (inv * (x1 - x2))) by (nonlinear_arith);
    lemma_mul_mod_noop_right(inv, x1 - x2, m);
    assert((inv * (x1 - x2)) % m == 1);
    lemma_mul_mod_noop_right(a1, inv * (x1 - x2), m);
    assert((a1 * (inv * (x1 - x2))) % m == (a1 * 1) % m);
    assert(slope == a1 % m);
    // y1 - x1 * slope = a0
    lemma_mul_mod_noop_right(x1, a1, m);
    assert((x1 * slope) % m == (x1 * a1) % m);
    lemma_sub_mod_noop(a0 + x1 * a1, x1 * a1, m);
    assert((a0 + x1 * a1) - x1 * a1 == a0);
    lemma_small_mod(a0 as nat, m as nat);
}

/// Calls `PrimeField::from_le_bytes_mod_order` of `ark-ff` on the BN254 scalar
/// field.  Trusted: the result is the canonical form of the little-endian
/// number in `bytes`, reduced modulo `p`.
#[verifier::external_body]
pub(crate) fn reduce_le_bytes(bytes: &[u8]) -> (r: Fr)
    ensures
        r@ == le_value(bytes@) % modulus(),
{
    let x = <ark_bn254::Fr as ark_ff::PrimeField>::from_le_bytes_mod_order(bytes);
    let repr = ark_ff::PrimeField::into_bigint(x);
    Fr { bytes: ark_ff::BigInteger::to_bytes_le(&repr).try_into().unwrap() }
}

/// Calls the addition of `ark-ff` on the BN254 scalar field.  Trusted: the
/// result is the canonical form of the sum modulo `p`.
#[verifier::external_body]
pub(crate) fn ark_add(a: &Fr, b: &Fr) -> (r: Fr)
    ensures
        r@ == field_add(a@, b@),
{
    let x = <ark_bn254::Fr as ark_ff::PrimeField>::from_le_bytes_mod_order(&a.bytes);
    let y = <ark_bn254::Fr as ark_ff::PrimeField>::from_le_bytes_mod_order(&b.bytes);
    let repr = ark_ff::PrimeField::into_bigint(x + y);
    Fr { bytes: ark_ff::BigInteger::to_bytes_le(&repr).try_into().unwrap() }
}

/// Calls the subtraction of `ark-ff` on the BN254 scalar field.  Trusted: the
/// result is the canonical form of the difference modulo `p`.
#[verifier::external_body]
pub(crate) fn ark_sub(a: &Fr, b: &Fr) -> (r: Fr)
    ensures
        r@ == field_sub(a@, b@),
{
    let x = <ark_bn254::Fr as ark_ff::PrimeField>::from_le_bytes_mod_order(&a.bytes);
    let y = <ark_bn254::Fr as ark_ff::PrimeField>::from_le_bytes_mod_order(&b.bytes);
    let repr = ark_ff::PrimeField::into_bigint(x - y);
    Fr { bytes: ark_ff::BigInteger::to_bytes_le(&repr).try_into().unwrap() }
}

/// Calls `Field::inverse` of `ark-ff` on the BN254 scalar field.  Trusted:
/// zero has no inverse; for any other element the result, in canonical form,
/// gives 1 when multiplied with the element modulo `p`.
#[verifier::external_body]
pub(crate) fn ark_inverse(a: &Fr) -> (r: Option<Fr>)
    ensures
        a@ % modulus() == 0 ==> r is None,
        a@ % modulus() != 0 ==> r is Some && is_field_inverse(a@, r.unwrap()@),
{
    let x = <ark_bn254::Fr as ark_ff::PrimeField>::from_le_bytes_mod_order(&a.bytes);
    let inverse = ark_ff::Field::inverse(&x)?;
    let repr = ark_ff::PrimeField::into_bigint(inverse);
    Some(Fr { bytes: ark_ff::BigInteger::to_bytes_le(&repr).try_into().unwrap() })
}

/// Calls the multiplication of `ark-ff` on the BN254 scalar field.  Trusted:
/// the result is the canonical form of the product modulo `p`.
#[verifier::external_body]
pub(crate) fn ark_mul(a: &Fr, b: &Fr) -> (r: Fr)
    ensures
        r@ == field_mul(a@, b@),
{
    let x = <ark_bn254::Fr as ark_ff::PrimeField>::from_le_bytes_mod_order(&a.bytes);
    let y = <ark_bn254::Fr as ark_ff::PrimeField>::from_le_bytes_mod_order(&b.bytes);
    let repr = ark_ff::PrimeField::into_bigint(x * y);
    Fr { bytes: ark_ff::BigInteger::to_bytes_le(&repr).try_into().unwrap() }
}

} // verus!
