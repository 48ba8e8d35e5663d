//! Decompression of write-entry point payloads.
//!
//! Point payloads are opaque to the log; the producing side hands them over
//! zstd-compressed, and this decoder undoes exactly that one byte-stream
//! compression step when the consuming side asks for the raw payload.

use vstd::prelude::*;

use crate::WalError;

verus! {

/// What zstd decompression yields for the bytes `b`: the decompressed
/// bytes, or nothing when `b` is not a well-formed zstd frame.
pub uninterp spec fn zstd_decoded(b: Seq<u8>) -> Option<Seq<u8>>;

/// Relies on `zstd::stream::decode_all`: decompressing a byte slice is a
/// function of those bytes alone, yielding the frame's contents or an
/// error for a malformed frame.
#[verifier::external_body]
fn zstd_decode(data: &[u8]) -> (r: Option<Vec<u8>>)
    ensures
        r is Some <==> zstd_decoded(data@) is Some,
        r matches Some(v) ==> zstd_decoded(data@) == Some(v@),
{
    match zstd::stream::decode_all(data) {
        Ok(v) => Some(v),
        Err(_) => None,
    }
}

/// Decoder for the point payloads carried by write entries.
pub struct WalDecoder {}

impl WalDecoder {
    /// A fresh payload decoder.
    pub fn new() -> (r: WalDecoder) {
        WalDecoder {  }
    }

    /// Decompresses one write entry's point payload.  Empty payloads decode
    /// to nothing; otherwise the payload must be one zstd frame, whose
    /// contents are returned, and a malformed frame is a decode error.
    pub fn decode(&mut self, data: &[u8]) -> (r: Result<Option<Vec<u8>>, WalError>)
        ensures
            data@.len() == 0 ==> r matches Ok(None),
            data@.len() > 0 && zstd_decoded(data@) is Some ==> (r matches Ok(v) && v matches Some(
                p,
            ) && Some(p@) == zstd_decoded(data@)),
            data@.len() > 0 && zstd_decoded(data@) is None ==> (r matches Err(e) && e
                == WalError::Decode),
    {
        if data.len() == 0 {
            return Ok(None);
        }
        match zstd_decode(data) {
            Some(v) => Ok(Some(v)),
            None => Err(WalError::Decode),
        }
    }
}

} // verus!
