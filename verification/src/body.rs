//! Reading a request body as text.
use vstd::prelude::*;
use vstd::utf8::{valid_utf8, decode_utf8};

verus! {

#[verifier::external_type_specification]
#[verifier::external_body]
pub struct ExFromUtf8Error(std::string::FromUtf8Error);

/// Calls `String::from_utf8(bytes)`: it succeeds exactly when the bytes are
/// valid UTF-8, with the text they encode.
#[verifier::external_body]
fn string_from_utf8(bytes: Vec<u8>) -> (r: Result<String, std::string::FromUtf8Error>)
    ensures
        r is Ok <==> valid_utf8(bytes@),
        r matches Ok(s) ==> s@ == decode_utf8(bytes@),
{
    String::from_utf8(bytes)
}

/// Calls `std::io::Error::other(error)`: an I/O error carrying the decoding
/// error. Nothing is stated of it.
#[verifier::external_body]
fn io_error_other(error: std::string::FromUtf8Error) -> (r: std::io::Error) {
    std::io::Error::other(error)
}

/// The text of a body that has been read whole: an error unless the bytes
/// are valid UTF-8.
pub fn utf8(body: Vec<u8>) -> (r: std::io::Result<String>)
    ensures
        r is Ok <==> valid_utf8(body@),
        r matches Ok(s) ==> s@ == decode_utf8(body@),
{
    match string_from_utf8(body) {
        Ok(s) => Ok(s),
        Err(e) => Err(io_error_other(e)),
    }
}

} // verus!
