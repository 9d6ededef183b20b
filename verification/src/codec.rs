//! Compression and transport encoding of policy content.
//!
//! Policy content travels inside a claim as zlib-compressed, base64-encoded
//! text, to keep the claim payload compact under transport size limits. The
//! mapping is reversible: decoding recovers exactly the content that was
//! encoded.

use vstd::prelude::*;

verus! {

/// Names the zlib stream that compressing the UTF-8 bytes of a text at the
/// default level produces: a function of the text alone.
pub uninterp spec fn zlib_of(s: Seq<char>) -> Seq<u8>;

/// Names the standard base64 encoding (padded, no line wrapping) of a byte
/// string: a function of the bytes alone.
pub uninterp spec fn b64_of(b: Seq<u8>) -> Seq<char>;

/// Relies on flate2's `ZlibEncoder` over an in-memory buffer: the
/// compressed stream depends on the input text alone, and since the
/// encoder reports only errors of the wrapped writer and writing into a
/// `Vec` cannot fail, compression always succeeds.
#[verifier::external_body]
fn zlib_compress(s: &str) -> (r: Vec<u8>)
    ensures
        r@ == zlib_of(s@),
{
    let mut encoder = flate2::write::ZlibEncoder::new(Vec::new(), flate2::Compression::default());
    std::io::Write::write_all(&mut encoder, s.as_bytes()).expect("a Vec accepts every write");
    encoder.finish().expect("a Vec accepts every write")
}

/// Relies on flate2's `ZlibDecoder`: inflating a zlib stream recovers
/// exactly the text whose compression produced that stream.
#[verifier::external_body]
fn zlib_decompress(b: &[u8]) -> (r: Option<String>)
    ensures
        match r {
            Some(out) => forall|s: Seq<char>| #[trigger] zlib_of(s) == b@ ==> out@ == s,
            None => forall|s: Seq<char>| #[trigger] zlib_of(s) != b@,
        },
{
    let mut decoder = flate2::read::ZlibDecoder::new(b);
    let mut out = Vec::new();
    match std::io::Read::read_to_end(&mut decoder, &mut out) {
        Ok(_) => String::from_utf8(out).ok(),
        Err(_) => None,
    }
}

/// Relies on base64's standard engine: encoding is a function of the bytes
/// alone.
#[verifier::external_body]
fn b64_encode(b: &[u8]) -> (r: String)
    ensures
        r@ == b64_of(b@),
{
    base64::Engine::encode(&base64::engine::general_purpose::STANDARD, b)
}

/// Relies on base64's standard engine: decoding inverts encoding exactly.
#[verifier::external_body]
fn b64_decode(s: &str) -> (r: Option<Vec<u8>>)
    ensures
        match r {
            Some(out) => forall|b: Seq<u8>| #[trigger] b64_of(b) == s@ ==> out@ == b,
            None => forall|b: Seq<u8>| #[trigger] b64_of(b) != s@,
        },
{
    base64::Engine::decode(&base64::engine::general_purpose::STANDARD, s).ok()
}

/// Encodes policy content for transport inside a claim: zlib-compress the
/// content, then base64-encode the compressed bytes.
pub fn encode_policy_claim(content: &str) -> (r: String)
    ensures
        r@ == b64_of(zlib_of(content@)),
{
    let compressed = zlib_compress(content);
    b64_encode(compressed.as_slice())
}

/// Decodes a policy claim back to policy content: base64-decode, then
/// inflate. A claim that `encode_policy_claim` produced decodes to exactly
/// the content it encoded, whatever that content was — including the empty
/// string and content with embedded newlines.
pub fn decode_policy_claim(claim: &str) -> (r: Option<String>)
    ensures
        forall|content: Seq<char>|
            claim@ == #[trigger] b64_of(zlib_of(content)) ==> (r matches Some(out) && out@
                == content),
{
    match b64_decode(claim) {
        Some(compressed) => zlib_decompress(compressed.as_slice()),
        None => None,
    }
}

} // verus!
