//! Standard base64 with padding.

use vstd::prelude::*;

verus! {

/// The base64 text of some bytes.
pub uninterp spec fn base64_text(bytes: Seq<u8>) -> Seq<char>;

/// The bytes that a base64 text stands for, or the decoder's message.
pub uninterp spec fn base64_bytes(text: Seq<char>) -> Result<Seq<u8>, Seq<char>>;

/// Decoding `text` gives `bytes`.
pub open spec fn decodes_to(text: Seq<char>, bytes: Seq<u8>) -> bool {
    base64_bytes(text) == Ok::<Seq<u8>, Seq<char>>(bytes)
}

/// The view of a decoding.
pub open spec fn decoded_view(r: Result<Vec<u8>, String>) -> Result<Seq<u8>, Seq<char>> {
    match r {
        Ok(bytes) => Ok(bytes@),
        Err(message) => Err(message@),
    }
}

/// The base64 text of some bytes: `Engine::encode` of the `STANDARD` engine.
///
/// Trusted: the outcome depends on the bytes alone, and decoding it gives the
/// bytes back.
#[verifier::external_body]
pub(crate) fn encode_base64(bytes: &[u8]) -> (out: String)
    ensures
        out@ == base64_text(bytes@),
        decodes_to(out@, bytes@),
{
    base64::Engine::encode(&base64::engine::general_purpose::STANDARD, bytes)
}

/// The bytes of a base64 text: `Engine::decode` of the `STANDARD` engine.
///
/// Trusted: the outcome depends on the text alone.
#[verifier::external_body]
pub(crate) fn decode_base64(text: &str) -> (r: Result<Vec<u8>, String>)
    ensures
        decoded_view(r) == base64_bytes(text@),
{
    base64::Engine::decode(&base64::engine::general_purpose::STANDARD, text).map_err(|e| e.to_string())
}

} // verus!
