//! What is taken on trust about the `hex` crate.
//!
//! Nothing in this file is proved. Each function below is a thin call into
//! `hex`, and its contract restates what that crate documents.

use crate::hextext::{hex_text, is_hex, unhex};
use hex::FromHexError;
use vstd::prelude::*;

verus! {

/// `hex::FromHexError`, which the verifier knows as a type and nothing more.
#[verifier::external_type_specification]
#[verifier::external_body]
pub struct ExFromHexError(FromHexError);

/// `hex::encode`: each byte as two lowercase hexadecimal digits, the high
/// digit first.
#[verifier::external_body]
pub(crate) fn encode_hex(bytes: &Vec<u8>) -> (text: String)
    ensures
        text@ == hex_text(bytes@),
{
    hex::encode(bytes)
}

/// `hex::decode`: succeeds exactly on an even number of hexadecimal digits
/// of either case, and then gives one byte for each pair of digits, the high
/// digit first.
#[verifier::external_body]
pub(crate) fn decode_hex(text: &str) -> (decoded: Result<Vec<u8>, FromHexError>)
    ensures
        decoded is Ok <==> is_hex(text@),
        decoded matches Ok(bytes) ==> bytes@ == unhex(text@),
{
    hex::decode(text)
}

} // verus!
