//! Base64 as the providers exchange binary payloads with their APIs, through
//! the `base64` crate's standard engine (standard alphabet, padded, canonical
//! padding required when decoding).

use vstd::prelude::*;

use base64::Engine;

verus! {

/// The standard base64 text of `bytes`.
pub uninterp spec fn base64_text(bytes: Seq<u8>) -> Seq<char>;

/// What the standard engine decodes `text` to: the bytes, or the text of the
/// decoding error.
pub uninterp spec fn base64_bytes(text: Seq<char>) -> Result<Seq<u8>, Seq<char>>;

/// `base64::engine::general_purpose::STANDARD.encode`: the standard base64
/// text of `bytes`, padded.
#[verifier::external_body]
pub(crate) fn encode_base64(bytes: &[u8]) -> (r: String)
    ensures
        r@ == base64_text(bytes@),
{
    base64::engine::general_purpose::STANDARD.encode(bytes)
}

/// `base64::engine::general_purpose::STANDARD.decode`: the bytes `text`
/// encodes, or the decoding error's text.
#[verifier::external_body]
pub(crate) fn decode_base64(text: &str) -> (r: Result<Vec<u8>, String>)
    ensures
        r is Ok <==> base64_bytes(text@) is Ok,
        r is Ok ==> r->Ok_0@ == base64_bytes(text@)->Ok_0,
        r is Err ==> r->Err_0@ == base64_bytes(text@)->Err_0,
{
    match base64::engine::general_purpose::STANDARD.decode(text.as_bytes()) {
        Ok(b) => Ok(b),
        Err(e) => Err(e.to_string()),
    }
}

} // verus!
