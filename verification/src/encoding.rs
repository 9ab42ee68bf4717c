//! Trusted bindings to the byte/text codecs the gateway leans on: base64
//! decoding of credential headers and UTF-8 decoding of byte streams.

use vstd::prelude::*;
use vstd::utf8::*;

verus! {

/// The bytes that standard base64 decoding yields for `s`; a function of
/// the input characters alone.
pub uninterp spec fn base64_decoded(s: Seq<char>) -> Seq<u8>;

/// Relies on `base64::decode`: decoding with the standard alphabet. The
/// result depends only on the input characters; invalid input yields
/// `None`, and empty input decodes to no bytes.
#[verifier::external_body]
pub(crate) fn base64_decode(s: &String) -> (r: Option<Vec<u8>>)
    ensures
        match r {
            Some(v) => v@ == base64_decoded(s@),
            None => s@.len() != 0,
        },
{
    match base64::decode(s.as_str()) {
        Ok(v) => Some(v),
        Err(_) => None,
    }
}

/// Relies on `core::str::from_utf8`: it returns `Ok` exactly when the
/// bytes are valid UTF-8, and the returned string is those bytes decoded.
#[verifier::external_body]
pub(crate) fn utf8_to_string(bytes: &Vec<u8>) -> (r: Option<String>)
    ensures
        match r {
            Some(s) => valid_utf8(bytes@) && s@ == decode_utf8(bytes@),
            None => !valid_utf8(bytes@),
        },
{
    match core::str::from_utf8(bytes.as_slice()) {
        Ok(s) => Some(s.to_owned()),
        Err(_) => None,
    }
}

} // verus!
