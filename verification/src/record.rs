//! Stored records are text: the bytes of a file, or of the output of a
//! helper program, are decoded before anything is read from them.

use vstd::prelude::*;
use vstd::utf8::{decode_utf8, valid_utf8};
use crate::error::ConfigCliError;

verus! {

/// The error of `std::str::from_utf8`, carried from the decoding to its
/// description and never looked into.
#[verifier::external_type_specification]
#[verifier::external_body]
pub struct ExUtf8Error(std::str::Utf8Error);

/// Calls `std::str::from_utf8`. Taken on trust: the call succeeds exactly
/// on valid UTF-8, and the text it gives is what the bytes encode.
#[verifier::external_body]
fn decode_text(bytes: &[u8]) -> (result: Result<&str, std::str::Utf8Error>)
    ensures
        result is Ok <==> valid_utf8(bytes@),
        result matches Ok(text) ==> text@ == decode_utf8(bytes@),
{
    std::str::from_utf8(bytes)
}

/// Decodes the bytes of a record as text.
///
/// Bytes that are valid UTF-8 give the text they encode. Other bytes are
/// refused with `StringConversionError`, which carries the description of
/// what is wrong with them.
pub fn decode(bytes: &[u8]) -> (result: Result<String, ConfigCliError>)
    ensures
        valid_utf8(bytes@) ==> result is Ok && result->Ok_0@ == decode_utf8(bytes@),
        !valid_utf8(bytes@) ==> result is Err && result->Err_0 is StringConversionError,
{
    match decode_text(bytes) {
        Ok(text) => Ok(text.to_owned()),
        Err(error) => Err(ConfigCliError::StringConversionError(error.to_string())),
    }
}

} // verus!
