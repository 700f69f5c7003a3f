use vstd::prelude::*;

verus! {

use vstd::utf8::{valid_utf8, decode_utf8};

/// What standard (padded) base64 decoding yields for a string, if anything.
/// The decoding is a fixed function of the characters alone.
pub uninterp spec fn b64_parse(s: Seq<char>) -> Option<Seq<u8>>;

/// Relies on base64's `STANDARD` engine `encode`: decoding the returned
/// string with the same engine yields exactly the input bytes.
#[verifier::external_body]
pub(crate) fn b64_encode(data: &Vec<u8>) -> (r: String)
    ensures
        b64_parse(r@) == Some(data@),
{
    base64::Engine::encode(&base64::engine::general_purpose::STANDARD, data)
}

/// Relies on base64's `STANDARD` engine `decode`: the result is exactly what
/// standard base64 decoding yields for the input, and malformed input is
/// rejected.
#[verifier::external_body]
pub(crate) fn b64_decode(s: &str) -> (r: Option<Vec<u8>>)
    ensures
        r matches Some(v) ==> b64_parse(s@) == Some(v@),
        r is None ==> b64_parse(s@) is None,
{
    base64::Engine::decode(&base64::engine::general_purpose::STANDARD, s).ok()
}

/// Relies on `String::from_utf8`: it succeeds exactly on valid UTF-8 bytes
/// and yields the characters those bytes encode.
#[verifier::external_body]
pub(crate) fn bytes_to_string(v: Vec<u8>) -> (r: Option<String>)
    ensures
        r matches Some(s) ==> valid_utf8(v@) && s@ == decode_utf8(v@),
        r is None ==> !valid_utf8(v@),
{
    String::from_utf8(v).ok()
}

} // verus!
