//! DEFLATE compression of byte buffers, with failures reported as values.

use vstd::prelude::*;

verus! {

/// Highest compression level accepted by `deflate`.
pub const MAX_LEVEL: u32 = 9;

/// Why a stream could not be compressed.
#[derive(Clone, Copy, Debug, PartialEq, Eq, Structural)]
pub enum StreamError {
    /// The level lies outside `0..=9`.
    InvalidLevel,
}

/// What the decoder reads, to its end, from a buffer of compressed bytes:
/// `Some` of the decoded bytes when the buffer begins with a complete, valid
/// DEFLATE stream (bytes after the stream's end are not read), `None` when
/// the stream breaks off or turns malformed before its end.
pub uninterp spec fn inflate_of(stream: Seq<u8>) -> Option<Seq<u8>>;

/// What the encoder writes for `data` at compression level `level`.
pub uninterp spec fn deflate_of(level: u32, data: Seq<u8>) -> Seq<u8>;

/// `stream` is a complete DEFLATE stream whose content is `original`.
pub open spec fn decodes_to(stream: Seq<u8>, original: Seq<u8>) -> bool {
    inflate_of(stream) == Some(original)
}

/// The outcome of `inflate`: the bytes recovered, and whether the stream was
/// read to its end without fault. When `complete` is false, `bytes` is the
/// prefix that was recovered before the fault.
pub struct Inflated {
    pub bytes: Vec<u8>,
    pub complete: bool,
}

/// Relies on flate2's `DeflateEncoder` writing into a `Vec<u8>`: it fails
/// only when its inner writer fails, which a `Vec` never does; the finished
/// stream is the deterministic DEFLATE encoding of the bytes written, and the
/// DEFLATE decoder reads it back, complete, as exactly those bytes.
#[verifier::external_body]
fn deflate_encode(data: &[u8], level: u32) -> (r: Result<Vec<u8>, ()>)
    requires
        level <= MAX_LEVEL,
    ensures
        r is Ok,
        r matches Ok(s) ==> s@ == deflate_of(level, data@) && decodes_to(s@, data@),
{
    let mut encoder = flate2::write::DeflateEncoder::new(Vec::new(), flate2::Compression::new(level));
    match std::io::Write::write_all(&mut encoder, data) {
        Ok(()) => encoder.finish().map_err(|_| ()),
        Err(_) => Err(()),
    }
}

/// Relies on flate2's `DeflateDecoder` over a byte slice, read with
/// `read_to_end`: it succeeds exactly on a complete, valid stream, and then
/// yields its decoded content; on a fault the bytes decoded so far are kept.
/// Decoding is streaming: what it yields from the beginning of a valid stream
/// is the beginning of that stream's content.
#[verifier::external_body]
fn deflate_decode(stream: &[u8]) -> (r: (Vec<u8>, bool))
    ensures
        r.1 <==> inflate_of(stream@) is Some,
        r.1 ==> inflate_of(stream@) == Some(r.0@),
        forall|full: Seq<u8>, original: Seq<u8>|
            stream@.is_prefix_of(full) && decodes_to(full, original) ==> r.0@.is_prefix_of(original),
{
    let mut decoder = flate2::read::DeflateDecoder::new(stream);
    let mut out: Vec<u8> = Vec::new();
    let ok = std::io::Read::read_to_end(&mut decoder, &mut out).is_ok();
    (out, ok)
}

/// Compresses `data` into a DEFLATE stream at `level` (0 stores, 9 packs
/// tightest). Levels above 9 are refused.
pub fn deflate(data: Vec<u8>, level: u32) -> (r: Result<Vec<u8>, StreamError>)
    ensures
        level > MAX_LEVEL ==> r == Err::<Vec<u8>, StreamError>(StreamError::InvalidLevel),
        level <= MAX_LEVEL ==> r is Ok,
        r matches Ok(s) ==> s@ == deflate_of(level, data@) && decodes_to(s@, data@),
{
    if level > MAX_LEVEL {
        return Err(StreamError::InvalidLevel);
    }
    match deflate_encode(data.as_slice(), level) {
        Ok(s) => Ok(s),
        // unreachable: encoding into memory does not fail at a valid level
        Err(_) => Err(StreamError::InvalidLevel),
    }
}

/// Decompresses a DEFLATE stream. A stream that breaks off or turns
/// malformed gives the bytes recovered before that point, with `complete`
/// false; when it is the beginning of a valid stream, those bytes are the
/// beginning of that stream's content.
pub fn inflate(data: Vec<u8>) -> (r: Inflated)
    ensures
        r.complete <==> inflate_of(data@) is Some,
        forall|original: Seq<u8>| decodes_to(data@, original) ==> r.complete && r.bytes@ == original,
        forall|full: Seq<u8>, original: Seq<u8>|
            data@.is_prefix_of(full) && decodes_to(full, original) ==> r.bytes@.is_prefix_of(original),
{
    let (bytes, complete) = deflate_decode(data.as_slice());
    Inflated { bytes, complete }
}

/// Decompressing what `deflate` produced gives back, completely, the bytes
/// that were compressed, for every buffer and every level that `deflate`
/// accepts.
pub proof fn lemma_stream_round_trip(data: Vec<u8>, level: u32, packed: Vec<u8>, unpacked: Inflated)
    requires
        call_ensures(deflate, (data, level), Ok::<Vec<u8>, StreamError>(packed)),
        call_ensures(inflate, (packed,), unpacked),
    ensures
        unpacked.complete,
        unpacked.bytes@ == data@,
{
}

/// Decompressing the beginning of what `deflate` produced recovers the
/// beginning of the bytes that were compressed, and nothing else.
pub proof fn lemma_truncated_stream_prefix(data: Vec<u8>, level: u32, packed: Vec<u8>, cut: Vec<u8>, unpacked: Inflated)
    requires
        call_ensures(deflate, (data, level), Ok::<Vec<u8>, StreamError>(packed)),
        cut@.is_prefix_of(packed@),
        call_ensures(inflate, (cut,), unpacked),
    ensures
        unpacked.bytes@.is_prefix_of(data@),
{
}

} // verus!
