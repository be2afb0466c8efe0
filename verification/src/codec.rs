//! Gzip codec boundary.
//!
//! Decompression of a fetched index buffer, and compression of text, both
//! through flate2. The decoder's outcome is named by `gunzip_of`; the
//! encoder is lossless, so what it produces decodes back to its input.

use vstd::prelude::*;

verus! {

/// What flate2's gzip decoder yields on a byte buffer: the decoded UTF-8
/// text, or `None` when the buffer is not a valid gzip stream or its
/// payload is not valid UTF-8 text. A function of the bytes alone.
pub uninterp spec fn gunzip_of(b: Seq<u8>) -> Option<Seq<char>>;

/// Decompression failure: the buffer is not a valid gzip stream, or its
/// payload does not decode as text. A per-source failure, never fatal to
/// a whole sync.
#[derive(Debug, Clone, Copy, PartialEq, Eq, Structural)]
pub struct DecompressError;

/// Relies on flate2's `GzDecoder` read through `read_to_string`: on a given
/// byte buffer the outcome, and the text on success, depend on the bytes
/// alone.
#[verifier::external_body]
fn gunzip_bytes(data: &Vec<u8>) -> (r: Option<String>)
    ensures
        gunzip_of(data@) == (match r {
            Some(s) => Some(s@),
            None => None::<Seq<char>>,
        }),
{
    let mut decoder = flate2::bufread::GzDecoder::new(data.as_slice());
    let mut text = String::new();
    match std::io::Read::read_to_string(&mut decoder, &mut text) {
        Ok(_) => Some(text),
        Err(_) => None,
    }
}

/// Relies on flate2's `GzEncoder` over an in-memory buffer: gzip is
/// lossless, so the bytes produced decode back to exactly the text that
/// went in. Writing into a `Vec` sink cannot fail.
#[verifier::external_body]
fn gzip_str(text: &str) -> (r: Vec<u8>)
    ensures
        gunzip_of(r@) == Some(text@),
{
    let mut encoder = flate2::write::GzEncoder::new(Vec::new(), flate2::Compression::default());
    std::io::Write::write_all(&mut encoder, text.as_bytes()).unwrap();
    encoder.finish().unwrap()
}

/// Turns one fetched, gzip-compressed index buffer into its text. Fails
/// exactly when the buffer is not a gzip stream of UTF-8 text; the sync
/// treats that as the loss of this one source, nothing more.
pub fn decompress(data: &Vec<u8>) -> (r: Result<String, DecompressError>)
    ensures
        r is Ok <==> gunzip_of(data@) is Some,
        r matches Ok(s) ==> gunzip_of(data@) == Some(s@),
{
    match gunzip_bytes(data) {
        Some(s) => Ok(s),
        None => Err(DecompressError),
    }
}

/// Compresses text into a gzip buffer. The contract is the codec round
/// trip: decompressing the result yields exactly `text` again.
pub fn compress(text: &str) -> (r: Vec<u8>)
    ensures
        gunzip_of(r@) == Some(text@),
{
    gzip_str(text)
}

} // verus!
