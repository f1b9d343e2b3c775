//! Bytes as text.

use vstd::prelude::*;
use vstd::utf8::{decode_utf8, valid_utf8};

verus! {

/// Reads bytes as UTF-8 text through `String::from_utf8` of the standard
/// library.
///
/// Trusted, not proved: the call yields a string exactly when the bytes are
/// well-formed UTF-8, and the string then holds the characters that the
/// bytes encode.
#[verifier::external_body]
pub(crate) fn text_of(bytes: Vec<u8>) -> (text: Option<String>)
    ensures
        text is Some <==> valid_utf8(bytes@),
        text matches Some(t) ==> t@ == decode_utf8(bytes@),
{
    match String::from_utf8(bytes) {
        Ok(text) => Some(text),
        Err(_) => None,
    }
}

} // verus!
