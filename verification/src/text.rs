//! Field elements written as decimal or hexadecimal text.

use crate::field::{modulus, Fr};
use vstd::arithmetic::div_mod::{lemma_add_mod_noop_right, lemma_mul_mod_noop_left};
use vstd::prelude::*;
use vstd::string::StringSliceAdditionalSpecFns;

verus! {

/// The value of an ASCII digit in the given radix, 10 or 16; hexadecimal
/// digits are taken in either case.
pub open spec fn digit_of(byte: u8, radix: nat) -> Option<nat> {
    if 0x30 <= byte <= 0x39 {
        Some((byte - 0x30) as nat)
    } else if radix == 16 && 0x61 <= byte <= 0x66 {
        Some((byte - 0x61 + 10) as nat)
    } else if radix == 16 && 0x41 <= byte <= 0x46 {
        Some((byte - 0x41 + 10) as nat)
    } else {
        None
    }
}

/// Every byte of the text is a digit of the radix.
pub open spec fn all_digits(text: Seq<u8>, radix: nat) -> bool {
    forall|i: int| 0 <= i < text.len() ==> digit_of(#[trigger] text[i], radix) is Some
}

/// The number that a run of digits denotes, most significant digit first.
pub open spec fn digits_value(text: Seq<u8>, radix: nat) -> nat
    decreases text.len(),
{
    if text.len() == 0 {
        0
    } else {
        digits_value(text.drop_last(), radix) * radix + digit_of(text.last(), radix).unwrap()
    }
}

/// The text without the double quotes around it, if it stands in a pair of
/// them.
pub open spec fn unquoted(text: Seq<u8>) -> Seq<u8> {
    if text.len() >= 2 && text[0] == 0x22 && text.last() == 0x22 {
        text.subrange(1, text.len() - 1)
    } else {
        text
    }
}

/// The digits of a number text: what is left of it without the quotes
/// around it and, in radix 16, without the prefix `0x`.
pub open spec fn number_digits(text: Seq<u8>, radix: nat) -> Seq<u8> {
    let body = unquoted(text);
    if radix == 16 && body.len() >= 2 && body[0] == 0x30 && body[1] == 0x78 {
        body.skip(2)
    } else {
        body
    }
}

/// The field element that a number text denotes: the number of its digits,
/// reduced modulo `p`.  A text without digits, or with anything else in it,
/// denotes none.
pub open spec fn str_to_fr_spec(text: Seq<u8>, radix: nat) -> Option<nat> {
    let digits = number_digits(text, radix);
    if digits.len() > 0 && all_digits(digits, radix) {
        Some(digits_value(digits, radix) % modulus())
    } else {
        None
    }
}

/// One step of reading a number digit by digit, modulo `m`.
pub proof fn lemma_digit_step_mod(value: int, radix: int, digit: int, m: int)
    requires
        0 < m,
    ensures
        ((((value % m) * radix) % m) + digit) % m == (value * radix + digit) % m,
{
    lemma_mul_mod_noop_left(value, radix, m);
    lemma_add_mod_noop_right(digit, value * radix, m);
    lemma_add_mod_noop_right(digit, (value % m) * radix, m);
}

/// The value of an ASCII digit in the given radix.
pub fn digit_value(byte: u8, radix: u32) -> (r: Option<u8>)
    requires
        radix == 10 || radix == 16,
    ensures
        match r {
            Some(d) => digit_of(byte, radix as nat) == Some(d as nat) && d < radix,
            None => digit_of(byte, radix as nat) is None,
        },
{
    if 0x30 <= byte && byte <= 0x39 {
        Some(byte - 0x30)
    } else if radix == 16 && 0x61 <= byte && byte <= 0x66 {
        Some(byte - 0x61 + 10)
    } else if radix == 16 && 0x41 <= byte && byte <= 0x46 {
        Some(byte - 0x41 + 10)
    } else {
        None
    }
}

/// Reads a field element from a number text in radix 10 or 16.
///
/// The text may stand in double quotes, and in radix 16 it may start with
/// `0x`.  The number is reduced modulo `p`.
pub fn str_to_fr(input: &str, radix: u32) -> (r: Option<Fr>)
    requires
        radix == 10 || radix == 16,
    ensures
        match r {
            Some(element) => str_to_fr_spec(input.spec_bytes(), radix as nat) == Some(element@),
            None => str_to_fr_spec(input.spec_bytes(), radix as nat) is None,
        },
{
    let bytes = input.as_bytes();
    let len: usize = bytes.len();
    let mut start: usize = 0;
    let mut end: usize = len;
    if len >= 2 && bytes[0] == 0x22 && bytes[len - 1] == 0x22 {
        start = 1;
        end = len - 1;
    }
    proof {
        assert(unquoted(bytes@) =~= bytes@.subrange(start as int, end as int));
    }
    if radix == 16 && end - start >= 2 && bytes[start] == 0x30 && bytes[start + 1] == 0x78 {
        proof {
            assert(bytes@.subrange(start as int, end as int).skip(2) =~= bytes@.subrange(
                start + 2,
                end as int,
            ));
        }
        start = start + 2;
    }
    let ghost digits = bytes@.subrange(start as int, end as int);
    proof {
        assert(number_digits(bytes@, radix as nat) == digits);
    }
    if start == end {
        return None;
    }
    let radix_element = Fr::from_u64(radix as u64);
    let mut value = Fr::zero();
    let mut i: usize = start;
    while i < end
        invariant
            start <= i <= end <= len,
            len == bytes@.len(),
            radix == 10 || radix == 16,
            radix_element@ == radix as nat,
            digits == bytes@.subrange(start as int, end as int),
            bytes@ == input.spec_bytes(),
            number_digits(bytes@, radix as nat) == digits,
            start < end,
            all_digits(bytes@.subrange(start as int, i as int), radix as nat),
            value@ == digits_value(bytes@.subrange(start as int, i as int), radix as nat)
                % modulus(),
        decreases end - i,
    {
        let digit = match digit_value(bytes[i], radix) {
            Some(digit) => digit,
            None => {
                proof {
                    assert(digits[i - start] == bytes@[i as int]);
                    assert(digit_of(digits[i - start], radix as nat) is None);
                    assert(!all_digits(digits, radix as nat));
                }
                return None;
            },
        };
        let ghost before = bytes@.subrange(start as int, i as int);
        let ghost next = bytes@.subrange(start as int, i + 1);
        proof {
            assert(next.drop_last() =~= before);
            assert(next.last() == bytes@[i as int]);
            assert forall|j: int| 0 <= j < next.len() implies digit_of(
                #[trigger] next[j],
                radix as nat,
            ) is Some by {
                if j < i - start {
                    assert(next[j] == before[j]);
                }
            }
            lemma_digit_step_mod(
                digits_value(before, radix as nat) as int,
                radix as int,
                digit as int,
                modulus() as int,
            );
        }
        value = value.mul(&radix_element).add(&Fr::from_u64(digit as u64));
        i = i + 1;
    }
    proof {
        assert(bytes@.subrange(start as int, end as int) == digits);
    }
    Some(value)
}

} // verus!
