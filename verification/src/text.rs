//! Bytes as text.
use crate::error::CustomError;
use vstd::prelude::*;
use vstd::utf8::{decode_utf8, encode_utf8, encode_utf8_decode_utf8, valid_utf8};

verus! {

/// Declares the error of `std::str::from_utf8`; nothing is known of what it
/// holds.
#[verifier::external_type_specification]
#[verifier::external_body]
pub struct ExUtf8Error(std::str::Utf8Error);

/// `std::str::from_utf8` succeeds exactly on bytes that are UTF-8, and the
/// string slice that it then returns is made of those very bytes.
pub assume_specification[ std::str::from_utf8 ](v: &[u8]) -> (r: Result<
    &str,
    std::str::Utf8Error,
>)
    ensures
        r is Ok <==> valid_utf8(v@),
        r matches Ok(s) ==> encode_utf8(s@) == v@,
;

/// The text that `bytes` encode, where they are UTF-8; a decode error
/// where they are not.
pub fn decode(bytes: &[u8]) -> (r: Result<String, CustomError>)
    ensures
        match r {
            Ok(text) => valid_utf8(bytes@) && text@ == decode_utf8(bytes@) && encode_utf8(text@)
                == bytes@,
            Err(e) => !valid_utf8(bytes@) && e is DecodeError,
        },
{
    match std::str::from_utf8(bytes) {
        Ok(text) => {
            proof {
                encode_utf8_decode_utf8(text@);
            }
            Ok(String::from_str(text))
        },
        Err(e) => Err(CustomError::DecodeError(e.to_string())),
    }
}

} // verus!
