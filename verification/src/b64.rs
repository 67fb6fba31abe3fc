//! Trusted boundary to the base64 codec and to lossy UTF-8 decoding.
//!
//! Every file payload and every captured output stream of the wire
//! protocol is base64-encoded.  The codec itself is an outside
//! computation; its results are given names here and everything the
//! library states about payloads goes through those names.

use vstd::prelude::*;
use base64::Engine;

verus! {

/// What the standard base64 encoding of a byte sequence looks like.
pub uninterp spec fn b64_chars(bytes: Seq<u8>) -> Seq<char>;

/// What standard base64 decoding returns for a string: the bytes it
/// encodes, where it is a valid encoding.
pub uninterp spec fn b64_decoded(s: Seq<char>) -> Option<Seq<u8>>;

/// What lossy UTF-8 decoding of a byte sequence returns.
pub uninterp spec fn utf8_lossy(bytes: Seq<u8>) -> Seq<char>;

/// Relies on base64's `STANDARD` engine `encode`: the result is a
/// function of the input bytes alone, and decoding it gives the input
/// bytes back.
#[verifier::external_body]
pub(crate) fn b64_encode(data: &Vec<u8>) -> (r: String)
    ensures
        r@ == b64_chars(data@),
        b64_decoded(r@) == Some(data@),
{
    base64::engine::general_purpose::STANDARD.encode(data.as_slice())
}

/// Relies on base64's `STANDARD` engine `decode`: it returns the bytes
/// a valid encoding stands for and rejects everything else.
#[verifier::external_body]
pub(crate) fn b64_decode(s: &str) -> (r: Option<Vec<u8>>)
    ensures
        match r {
            Some(d) => b64_decoded(s@) == Some(d@),
            None => b64_decoded(s@) is None,
        },
{
    match base64::engine::general_purpose::STANDARD.decode(s) {
        Ok(v) => Some(v),
        Err(_) => None,
    }
}

/// Relies on `String::from_utf8_lossy`: the result depends on the input
/// bytes alone.
#[verifier::external_body]
pub(crate) fn bytes_to_text(data: &Vec<u8>) -> (r: String)
    ensures
        r@ == utf8_lossy(data@),
{
    String::from_utf8_lossy(data.as_slice()).into_owned()
}

} // verus!
