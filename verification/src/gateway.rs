//! The library-side edge of the speech-synthesis gateway.
//!
//! The HTTP exchange itself happens outside the library; what comes back in
//! a `VoiceResponse` is a base64 payload, and decoding it to raw audio bytes
//! is the library's work.  The decoder is the one outside call made here.

use crate::models::VoiceResponse;
use vstd::prelude::*;

verus! {

/// Why a synthesis exchange failed.
#[derive(Debug, Clone, Copy, PartialEq, Eq, Structural)]
pub enum TransportError {
    /// The synthesis endpoint could not be reached or answered the exchange
    /// with an error.
    Unreachable,
    /// The endpoint answered, but the payload was not decodable.
    MalformedResponse,
}

/// The bytes that standard-alphabet base64 text decodes to.
pub uninterp spec fn base64_bytes_of(text: Seq<char>) -> Seq<u8>;

/// Is the text valid standard-alphabet base64 — does decoding it succeed?
pub uninterp spec fn base64_decodes(text: Seq<char>) -> bool;

/// Relies on `base64_stream::FromBase64Reader` over an in-memory cursor:
/// reading it to the end decodes standard-alphabet base64 text into the
/// bytes it encodes, and reports an error exactly on text that is not valid
/// base64.  Both the verdict and the bytes depend on the text alone.
#[verifier::external_body]
fn decode_base64(text: &str) -> (r: Option<Vec<u8>>)
    ensures
        r is Some <==> base64_decodes(text@),
        r matches Some(b) ==> b@ == base64_bytes_of(text@),
{
    let mut reader = base64_stream::FromBase64Reader::new(std::io::Cursor::new(text));
    let mut buf: Vec<u8> = Vec::new();
    match std::io::Read::read_to_end(&mut reader, &mut buf) {
        Ok(_) => Some(buf),
        Err(_) => None,
    }
}

/// Decodes the audio payload of a synthesis response.  Succeeds exactly on
/// a payload of valid base64, and the result is then exactly the bytes that
/// payload encodes; a payload that is not valid base64 is reported as a
/// malformed response, never a panic.
pub fn decode_audio_content(resp: &VoiceResponse) -> (r: Result<Vec<u8>, TransportError>)
    ensures
        r is Ok <==> base64_decodes(resp.audio_content@),
        r matches Ok(b) ==> b@ == base64_bytes_of(resp.audio_content@),
        r matches Err(e) ==> e == TransportError::MalformedResponse,
{
    match decode_base64(resp.audio_content.as_str()) {
        Some(b) => Ok(b),
        None => Err(TransportError::MalformedResponse),
    }
}

} // verus!
