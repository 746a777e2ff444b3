//! Unpadded URL-safe base64, as used for key tokens and encrypted values.

use base64::Engine;
use vstd::prelude::*;

verus! {

/// The unpadded URL-safe base64 rendering of `b`.
pub uninterp spec fn b64_encoding(b: Seq<u8>) -> Seq<char>;

/// What unpadded URL-safe base64 decoding yields on `s`: the decoded bytes,
/// or `None` where `s` is not a valid encoding.
pub uninterp spec fn b64_decoding(s: Seq<char>) -> Option<Seq<u8>>;

/// Relies on base64's `Engine::encode` with the `URL_SAFE_NO_PAD` engine: the
/// encoding is a function of the input bytes alone, and decoding it with the
/// same engine gives the input bytes back.
#[verifier::external_body]
pub(crate) fn b64_encode(b: &[u8]) -> (r: String)
    ensures
        r@ == b64_encoding(b@),
        b64_decoding(r@) == Some(b@),
{
    base64::engine::general_purpose::URL_SAFE_NO_PAD.encode(b)
}

/// Relies on base64's `Engine::decode` with the `URL_SAFE_NO_PAD` engine: the
/// result is a function of the input text alone, and is an error exactly
/// where the text is not a valid unpadded URL-safe base64 encoding.
#[verifier::external_body]
pub(crate) fn b64_decode(s: &str) -> (r: Result<Vec<u8>, String>)
    ensures
        match r {
            Ok(v) => b64_decoding(s@) == Some(v@),
            Err(_) => b64_decoding(s@) is None,
        },
{
    base64::engine::general_purpose::URL_SAFE_NO_PAD.decode(s).map_err(|e| e.to_string())
}

} // verus!
