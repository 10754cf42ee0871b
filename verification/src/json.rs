//! The inputs of the circuit as the JSON object that CIRCOM tooling reads:
//! every number a decimal text, and the epoch a hexadecimal text of 64
//! digits behind `0x`.
//!
//! The object is held as its texts.  Reading a JSON document is the work of
//! `serde_json`; which texts denote which witness is decided here.

use crate::bigint::{decimal_digits, fr_to_decimal, fr_to_padded_hex, padded_hex_text, BigInt};
use crate::field::{fr_values, Fr};
use crate::protocol::{
    hash_to_field, is_bit_path, rln_identifier_spec, RLNWitnessInput, RLNWitnessInputView,
    RLN_IDENTIFIER,
};
use crate::text::{str_to_fr, str_to_fr_spec};
use vstd::prelude::*;
use vstd::utf8::encode_utf8;

verus! {

/// The text of the member `name` of the JSON object that `document` holds,
/// or none where the document is no JSON object with such a member.
pub uninterp spec fn json_member_text_spec(document: Seq<char>, name: Seq<char>) -> Option<
    Seq<char>,
>;

/// The texts of the items of the member `name` of the JSON object that
/// `document` holds, or none where the document is no JSON object with such a
/// member, or the member is no array.
pub uninterp spec fn json_member_items_spec(document: Seq<char>, name: Seq<char>) -> Option<
    Seq<Seq<char>>,
>;

/// Why a JSON document gave no witness.
#[derive(Clone, Copy, Debug, PartialEq, Eq, Structural)]
pub enum JsonError {
    /// The document is no JSON object with the six members of a witness.
    Malformed,
    /// A member is no number text.
    InvalidNumber,
    /// The Merkle path does not have one index for each sibling.
    LengthMismatch,
    /// A Merkle path index is neither 0 nor 1.
    InvalidPathIndex,
    /// The RLN identifier is not the one of this library.
    ForeignIdentifier,
}

/// The views of a sequence of texts.
pub open spec fn texts(items: Seq<String>) -> Seq<Seq<char>> {
    items.map_values(|s: String| s@)
}

/// What the JSON object of a witness holds, as texts.
pub struct RLNWitnessJsonView {
    pub identity_secret: Seq<char>,
    pub path_elements: Seq<Seq<char>>,
    pub identity_path_index: Seq<Seq<char>>,
    pub x: Seq<char>,
    pub epoch: Seq<char>,
    pub rln_identifier: Seq<char>,
}

/// The members of the JSON object of a witness.
#[derive(Debug, PartialEq)]
pub struct RLNWitnessJson {
    pub identity_secret: String,
    pub path_elements: Vec<String>,
    pub identity_path_index: Vec<String>,
    pub x: String,
    pub epoch: String,
    pub rln_identifier: String,
}

impl View for RLNWitnessJson {
    type V = RLNWitnessJsonView;

    open spec fn view(&self) -> RLNWitnessJsonView {
        RLNWitnessJsonView {
            identity_secret: self.identity_secret@,
            path_elements: texts(self.path_elements@),
            identity_path_index: texts(self.identity_path_index@),
            x: self.x@,
            epoch: self.epoch@,
            rln_identifier: self.rln_identifier@,
        }
    }
}

/// The JSON object of a witness: decimal texts, but for the epoch.
pub open spec fn json_inputs_spec(w: RLNWitnessInputView) -> RLNWitnessJsonView {
    RLNWitnessJsonView {
        identity_secret: decimal_digits(w.identity_secret),
        path_elements: w.path_elements.map_values(|e: nat| decimal_digits(e)),
        identity_path_index: w.identity_path_index.map_values(|b: u8| decimal_digits(b as nat)),
        x: decimal_digits(w.x),
        epoch: padded_hex_text(w.epoch),
        rln_identifier: decimal_digits(w.rln_identifier),
    }
}

/// The field element that a decimal text denotes.
pub open spec fn decimal_member(text: Seq<char>) -> Option<nat> {
    str_to_fr_spec(encode_utf8(text), 10)
}

/// The field element that a hexadecimal text denotes.
pub open spec fn hexadecimal_member(text: Seq<char>) -> Option<nat> {
    str_to_fr_spec(encode_utf8(text), 16)
}

/// Every text is a decimal number text.
pub open spec fn all_decimal(items: Seq<Seq<char>>) -> bool {
    forall|i: int| 0 <= i < items.len() ==> decimal_member(#[trigger] items[i]) is Some
}

/// The field elements that decimal texts denote.
pub open spec fn decimal_members(items: Seq<Seq<char>>) -> Seq<nat> {
    items.map_values(|t: Seq<char>| decimal_member(t).unwrap())
}

/// Every number is 0 or 1.
pub open spec fn all_bit_values(values: Seq<nat>) -> bool {
    forall|i: int| 0 <= i < values.len() ==> #[trigger] values[i] <= 1
}

/// The witness that the texts of a JSON object denote.
///
/// Every member but the epoch is read as a decimal number, the epoch as a
/// hexadecimal one.  The object is rejected if a member is no number, if the
/// path does not have one index for each sibling, if an index is neither 0
/// nor 1, or if the identifier is not the one of this library.
pub open spec fn witness_from_json_spec(j: RLNWitnessJsonView) -> Result<
    RLNWitnessInputView,
    JsonError,
> {
    if decimal_member(j.identity_secret) is None || !all_decimal(j.path_elements) || !all_decimal(
        j.identity_path_index,
    ) || decimal_member(j.x) is None || hexadecimal_member(j.epoch) is None || decimal_member(
        j.rln_identifier,
    ) is None {
        Err(JsonError::InvalidNumber)
    } else if j.path_elements.len() != j.identity_path_index.len() {
        Err(JsonError::LengthMismatch)
    } else if !all_bit_values(decimal_members(j.identity_path_index)) {
        Err(JsonError::InvalidPathIndex)
    } else if decimal_member(j.rln_identifier).unwrap() != rln_identifier_spec() {
        Err(JsonError::ForeignIdentifier)
    } else {
        Ok(
            RLNWitnessInputView {
                identity_secret: decimal_member(j.identity_secret).unwrap(),
                path_elements: decimal_members(j.path_elements),
                identity_path_index: decimal_members(j.identity_path_index).map_values(
                    |v: nat| v as u8,
                ),
                x: decimal_member(j.x).unwrap(),
                epoch: hexadecimal_member(j.epoch).unwrap(),
                rln_identifier: decimal_member(j.rln_identifier).unwrap(),
            },
        )
    }
}

/// The texts of the six members of a witness in a JSON document, or none
/// where one of them is missing.
pub open spec fn json_members_spec(document: Seq<char>) -> Option<RLNWitnessJsonView> {
    let identity_secret = json_member_text_spec(document, "identity_secret"@);
    let path_elements = json_member_items_spec(document, "path_elements"@);
    let identity_path_index = json_member_items_spec(document, "identity_path_index"@);
    let x = json_member_text_spec(document, "x"@);
    let epoch = json_member_text_spec(document, "epoch"@);
    let rln_identifier = json_member_text_spec(document, "rln_identifier"@);
    if identity_secret is None || path_elements is None || identity_path_index is None || x is None
        || epoch is None || rln_identifier is None {
        None
    } else {
        Some(
            RLNWitnessJsonView {
                identity_secret: identity_secret.unwrap(),
                path_elements: path_elements.unwrap(),
                identity_path_index: identity_path_index.unwrap(),
                x: x.unwrap(),
                epoch: epoch.unwrap(),
                rln_identifier: rln_identifier.unwrap(),
            },
        )
    }
}

/// The decimal texts of a run of field elements.
fn elements_to_decimal(elements: &[Fr]) -> (r: Vec<String>)
    ensures
        texts(r@) == fr_values(elements@).map_values(|e: nat| decimal_digits(e)),
{
    let mut r: Vec<String> = Vec::new();
    let mut i: usize = 0;
    while i < elements.len()
        invariant
            i <= elements@.len(),
            r@.len() == i,
            forall|j: int| 0 <= j < i ==> (#[trigger] r@[j])@ == decimal_digits(elements@[j]@),
        decreases elements@.len() - i,
    {
        r.push(fr_to_decimal(&elements[i]));
        i = i + 1;
    }
    proof {
        assert(texts(r@) =~= fr_values(elements@).map_values(|e: nat| decimal_digits(e)));
    }
    r
}

/// The decimal texts of a run of bytes.
fn bytes_to_decimal(bytes: &[u8]) -> (r: Vec<String>)
    ensures
        texts(r@) == bytes@.map_values(|b: u8| decimal_digits(b as nat)),
{
    let mut r: Vec<String> = Vec::new();
    let mut i: usize = 0;
    while i < bytes.len()
        invariant
            i <= bytes@.len(),
            r@.len() == i,
            forall|j: int| 0 <= j < i ==> (#[trigger] r@[j])@ == decimal_digits(bytes@[j] as nat),
        decreases bytes@.len() - i,
    {
        r.push(BigInt::from_u8(bytes[i]).to_str_radix_10());
        i = i + 1;
    }
    proof {
        assert(texts(r@) =~= bytes@.map_values(|b: u8| decimal_digits(b as nat)));
    }
    r
}

/// The JSON inputs that are needed to calculate the witness with CIRCOM
/// tooling.
pub fn get_json_inputs(rln_witness: &RLNWitnessInput) -> (inputs: RLNWitnessJson)
    ensures
        inputs@ == json_inputs_spec(rln_witness@),
{
    let path_elements = elements_to_decimal(rln_witness.path_elements().as_slice());
    let identity_path_index = bytes_to_decimal(rln_witness.identity_path_index().as_slice());

    RLNWitnessJson {
        identity_secret: fr_to_decimal(&rln_witness.identity_secret()),
        path_elements,
        identity_path_index,
        x: fr_to_decimal(&rln_witness.x()),
        epoch: fr_to_padded_hex(&rln_witness.epoch()),
        rln_identifier: fr_to_decimal(&rln_witness.rln_identifier()),
    }
}

/// Reads a run of decimal texts.
fn decimal_items(items: &Vec<String>) -> (r: Option<Vec<Fr>>)
    ensures
        match r {
            Some(elements) => all_decimal(texts(items@)) && fr_values(elements@) == decimal_members(
                texts(items@),
            ) && elements@.len() == items@.len(),
            None => !all_decimal(texts(items@)),
        },
{
    let mut elements: Vec<Fr> = Vec::new();
    let mut i: usize = 0;
    while i < items.len()
        invariant
            i <= items@.len(),
            elements@.len() == i,
            forall|j: int|
                0 <= j < i ==> decimal_member(#[trigger] texts(items@)[j]) == Some(elements@[j]@),
        decreases items@.len() - i,
    {
        let element = match str_to_fr(items[i].as_str(), 10) {
            Some(element) => element,
            None => {
                proof {
                    assert(decimal_member(texts(items@)[i as int]) is None);
                }
                return None;
            },
        };
        proof {
            assert(texts(items@)[i as int] == items@[i as int]@);
        }
        elements.push(element);
        i = i + 1;
    }
    proof {
        assert(fr_values(elements@) =~= decimal_members(texts(items@)));
    }
    Some(elements)
}

/// The index bits that a run of field elements denotes, where each of them
/// is 0 or 1.
fn index_bits(values: &Vec<Fr>) -> (r: Option<Vec<u8>>)
    ensures
        match r {
            Some(bits) => all_bit_values(fr_values(values@)) && bits@ == fr_values(
                values@,
            ).map_values(|v: nat| v as u8) && is_bit_path(bits@),
            None => !all_bit_values(fr_values(values@)),
        },
{
    let zero = Fr::from_u64(0);
    let one = Fr::from_u64(1);
    let mut bits: Vec<u8> = Vec::new();
    let mut i: usize = 0;
    while i < values.len()
        invariant
            i <= values@.len(),
            zero@ == 0,
            one@ == 1,
            bits@.len() == i,
            forall|j: int|
                0 <= j < i ==> (#[trigger] values@[j])@ <= 1 && bits@[j] == values@[j]@,
        decreases values@.len() - i,
    {
        let ghost before = bits@;
        if values[i].equals(&zero) {
            bits.push(0);
            proof {
                assert(bits@ == before.push(0u8));
            }
        } else if values[i].equals(&one) {
            bits.push(1);
            proof {
                assert(bits@ == before.push(1u8));
            }
        } else {
            proof {
                assert(fr_values(values@)[i as int] == values@[i as int]@);
            }
            return None;
        }
        i = i + 1;
    }
    proof {
        assert forall|j: int| 0 <= j < values@.len() implies #[trigger] fr_values(values@)[j]
            <= 1 by {
            assert(values@[j]@ <= 1);
        }
        assert(bits@ =~= fr_values(values@).map_values(|v: nat| v as u8));
    }
    Some(bits)
}

/// Builds a witness from the texts of the members of its JSON object.
pub fn rln_witness_from_json_members(json: &RLNWitnessJson) -> (r: Result<
    RLNWitnessInput,
    JsonError,
>)
    ensures
        match r {
            Ok(w) => witness_from_json_spec(json@) == Ok::<RLNWitnessInputView, JsonError>(w@),
            Err(e) => witness_from_json_spec(json@) == Err::<RLNWitnessInputView, JsonError>(e),
        },
{
    let identity_secret = match str_to_fr(json.identity_secret.as_str(), 10) {
        Some(element) => element,
        None => { return Err(JsonError::InvalidNumber); },
    };
    let path_elements = match decimal_items(&json.path_elements) {
        Some(elements) => elements,
        None => { return Err(JsonError::InvalidNumber); },
    };
    let index_values = match decimal_items(&json.identity_path_index) {
        Some(elements) => elements,
        None => { return Err(JsonError::InvalidNumber); },
    };
    let x = match str_to_fr(json.x.as_str(), 10) {
        Some(element) => element,
        None => { return Err(JsonError::InvalidNumber); },
    };
    let epoch = match str_to_fr(json.epoch.as_str(), 16) {
        Some(element) => element,
        None => { return Err(JsonError::InvalidNumber); },
    };
    let rln_identifier = match str_to_fr(json.rln_identifier.as_str(), 10) {
        Some(element) => element,
        None => { return Err(JsonError::InvalidNumber); },
    };
    proof {
        assert(json@.path_elements.len() == path_elements@.len());
        assert(json@.identity_path_index.len() == index_values@.len());
    }
    if path_elements.len() != index_values.len() {
        return Err(JsonError::LengthMismatch);
    }
    let identity_path_index = match index_bits(&index_values) {
        Some(bits) => bits,
        None => { return Err(JsonError::InvalidPathIndex); },
    };
    let expected_identifier = hash_to_field(RLN_IDENTIFIER.as_slice());
    if !rln_identifier.equals(&expected_identifier) {
        return Err(JsonError::ForeignIdentifier);
    }
    Ok(
        RLNWitnessInput::from_parts(
            identity_secret,
            path_elements,
            identity_path_index,
            x,
            epoch,
            rln_identifier,
        ),
    )
}

/// Reads a witness from the text of a JSON document.
///
/// The document is parsed by `serde_json`; a document that is no JSON
/// object with the six members of a witness is malformed.  What the texts of
/// the members denote is decided by `rln_witness_from_json_members`.
pub fn rln_witness_from_json(input_json_str: &str) -> (r: Result<RLNWitnessInput, JsonError>)
    ensures
        match json_members_spec(input_json_str@) {
            None => r == Err::<RLNWitnessInput, JsonError>(JsonError::Malformed),
            Some(members) => match r {
                Ok(w) => witness_from_json_spec(members) == Ok::<RLNWitnessInputView, JsonError>(
                    w@,
                ),
                Err(e) => witness_from_json_spec(members) == Err::<
                    RLNWitnessInputView,
                    JsonError,
                >(e),
            },
        },
{
    let identity_secret = match json_member_text(input_json_str, "identity_secret") {
        Some(text) => text,
        None => { return Err(JsonError::Malformed); },
    };
    let path_elements = match json_member_items(input_json_str, "path_elements") {
        Some(items) => items,
        None => { return Err(JsonError::Malformed); },
    };
    let identity_path_index = match json_member_items(input_json_str, "identity_path_index") {
        Some(items) => items,
        None => { return Err(JsonError::Malformed); },
    };
    let x = match json_member_text(input_json_str, "x") {
        Some(text) => text,
        None => { return Err(JsonError::Malformed); },
    };
    let epoch = match json_member_text(input_json_str, "epoch") {
        Some(text) => text,
        None => { return Err(JsonError::Malformed); },
    };
    let rln_identifier = match json_member_text(input_json_str, "rln_identifier") {
        Some(text) => text,
        None => { return Err(JsonError::Malformed); },
    };
    let members = RLNWitnessJson {
        identity_secret,
        path_elements,
        identity_path_index,
        x,
        epoch,
        rln_identifier,
    };
    rln_witness_from_json_members(&members)
}

/// Parses the document with `serde_json::from_str`, looks the member up
/// with `Value::get` and writes it out with `to_string`.  Trusted: what comes
/// out is a function of the document and the name alone, named
/// `json_member_text_spec`.
#[verifier::external_body]
pub(crate) fn json_member_text(document: &str, name: &str) -> (r: Option<String>)
    ensures
        match r {
            Some(text) => json_member_text_spec(document@, name@) == Some(text@),
            None => json_member_text_spec(document@, name@) is None,
        },
{
    let value: serde_json::Value = serde_json::from_str(document).ok()?;
    Some(value.get(name)?.to_string())
}

/// Parses the document with `serde_json::from_str`, looks the member up
/// with `Value::get`, takes it as an array with `as_array` and writes each
/// item out with `to_string`.  Trusted: what comes out is a function of the
/// document and the name alone, named `json_member_items_spec`.
#[verifier::external_body]
pub(crate) fn json_member_items(document: &str, name: &str) -> (r: Option<Vec<String>>)
    ensures
        match r {
            Some(items) => json_member_items_spec(document@, name@) == Some(texts(items@)),
            None => json_member_items_spec(document@, name@) is None,
        },
{
    let value: serde_json::Value = serde_json::from_str(document).ok()?;
    Some(value.get(name)?.as_array()?.iter().map(|item| item.to_string()).collect())
}

} // verus!
