//! Decompression of raw DEFLATE streams.

use crate::errors::UnpackError;
use vstd::prelude::*;

verus! {

/// What `inflate::inflate_bytes` makes of the compressed bytes `data`: the
/// expanded bytes, or the message with which it rejects the stream.
pub uninterp spec fn inflated(data: Seq<u8>) -> Result<Seq<u8>, Seq<char>>;

/// What decompression makes of `data`: the expanded bytes, or the failure
/// `ZlibError` where the stream is rejected.
pub open spec fn decompressed(data: Seq<u8>) -> Result<Seq<u8>, UnpackError> {
    match inflated(data) {
        Ok(plain) => Ok(plain),
        Err(_) => Err(UnpackError::ZlibError),
    }
}

/// The outcome `r` with its bytes as a sequence.
pub open spec fn bytes_result(r: Result<Vec<u8>, UnpackError>) -> Result<Seq<u8>, UnpackError> {
    match r {
        Ok(bytes) => Ok(bytes@),
        Err(e) => Err(e),
    }
}

/// `inflate::inflate_bytes`: expands a raw DEFLATE stream. The result is a
/// function of the bytes handed in; nothing else is claimed of it.
#[verifier::external_body]
fn inflate_bytes(data: &[u8]) -> (r: Result<Vec<u8>, String>)
    ensures
        match r {
            Ok(plain) => inflated(data@) == Ok::<Seq<u8>, Seq<char>>(plain@),
            Err(message) => inflated(data@) == Err::<Seq<u8>, Seq<char>>(message@),
        },
{
    inflate::inflate_bytes(data)
}

/// Expands the raw DEFLATE stream `data`. A stream that the decoder rejects
/// gives `ZlibError`.
pub fn decompress(data: &[u8]) -> (r: Result<Vec<u8>, UnpackError>)
    ensures
        bytes_result(r) == decompressed(data@),
{
    match inflate_bytes(data) {
        Ok(plain) => Ok(plain),
        Err(_) => Err(UnpackError::ZlibError),
    }
}

} // verus!
