//! The DEFLATE and CRC32 primitives this crate builds on, behind trusted
//! wrappers.  Everything else in the crate is verified against the contracts
//! stated here.

use vstd::prelude::*;
use crate::errors::CodecError;

verus! {

/// What `miniz_oxide::deflate::compress_to_vec` returns: the raw DEFLATE
/// stream for `data` at the given level, a function of its arguments alone.
pub uninterp spec fn deflate_of(level: int, data: Seq<u8>) -> Seq<u8>;

/// What `miniz_oxide::inflate::decompress_to_vec` finds in `data`:
/// `Ok(Some(p))` when a complete DEFLATE stream decoding to `p` starts at
/// byte 0 (whatever follows the stream's end is ignored), `Ok(None)` when
/// `data` stops before the stream is complete, and `Err(())` when the data
/// is not a DEFLATE stream.
pub uninterp spec fn inflate_of(data: Seq<u8>) -> Result<Option<Seq<u8>>, ()>;

/// What `crc32fast::hash` returns: the standard (IEEE) CRC32 of `data`.
pub uninterp spec fn crc32_of(data: Seq<u8>) -> u32;

/// The two facts about the DEFLATE primitive that the framing layer relies
/// on: a DEFLATE stream is self-terminating, so inflating it yields exactly
/// the bytes that were deflated no matter what follows the stream; and a
/// proper prefix of such a stream is reported as incomplete, not invalid,
/// since the decoder runs out of bytes before it can finish.
pub open spec fn inflate_deflate_laws() -> bool {
    &&& forall|level: int, b: Seq<u8>, t: Seq<u8>|
        0 <= level <= 9 ==> #[trigger] inflate_of(deflate_of(level, b) + t)
            == Ok::<Option<Seq<u8>>, ()>(Some(b))
    &&& forall|level: int, b: Seq<u8>, m: int|
        0 <= level <= 9 && 0 <= m < deflate_of(level, b).len()
            ==> #[trigger] inflate_of(deflate_of(level, b).take(m))
                == Ok::<Option<Seq<u8>>, ()>(None)
}

/// Relies on `miniz_oxide::deflate::compress_to_vec`: compresses `data` to
/// a raw DEFLATE stream, deterministically in `level` and `data`.
#[verifier::external_body]
pub(crate) fn deflate(data: &[u8], level: u8) -> (r: Vec<u8>)
    requires
        level <= 9,
    ensures
        r@ == deflate_of(level as int, data@),
{
    miniz_oxide::deflate::compress_to_vec(data, level)
}

/// How the result of [`inflate`] reflects [`inflate_of`]: a success is the
/// complete decoded stream, `UnexpectedEof` is a truncated stream,
/// `CorruptStream` is invalid data, and no other error is returned.  The
/// call also vouches for [`inflate_deflate_laws`].
pub open spec fn inflate_post(r: Result<Vec<u8>, CodecError>, data: Seq<u8>) -> bool {
    &&& (match r {
        Ok(p) => inflate_of(data) == Ok::<Option<Seq<u8>>, ()>(Some(p@)),
        Err(CodecError::UnexpectedEof) => inflate_of(data) == Ok::<Option<Seq<u8>>, ()>(None),
        Err(CodecError::CorruptStream) => inflate_of(data) is Err,
        Err(_) => false,
    })
    &&& inflate_deflate_laws()
}

/// Relies on `miniz_oxide::inflate::decompress_to_vec`: decodes the DEFLATE
/// stream at the front of `data`.  Its source reports a truncated stream as
/// `FailedCannotMakeProgress` and invalid data as the other failure
/// statuses; no output limit is given, so the limit status cannot arise.
#[verifier::external_body]
pub(crate) fn inflate(data: &[u8]) -> (r: Result<Vec<u8>, CodecError>)
    ensures
        inflate_post(r, data@),
        r is Ok ==> inflate_of(data@) == Ok::<Option<Seq<u8>>, ()>(Some(r->Ok_0@)),
{
    match miniz_oxide::inflate::decompress_to_vec(data) {
        Ok(p) => Ok(p),
        Err(e) => match e.status {
            miniz_oxide::inflate::TINFLStatus::FailedCannotMakeProgress => Err(
                CodecError::UnexpectedEof,
            ),
            miniz_oxide::inflate::TINFLStatus::NeedsMoreInput => Err(CodecError::UnexpectedEof),
            _ => Err(CodecError::CorruptStream),
        },
    }
}

/// How the result of [`crc32`] reflects [`crc32_of`].  The call also
/// vouches that the CRC32 of no bytes at all is 0, which its source gives
/// as the initial state of the hasher.
pub open spec fn crc32_post(r: u32, data: Seq<u8>) -> bool {
    &&& r == crc32_of(data)
    &&& crc32_of(Seq::<u8>::empty()) == 0
}

/// Relies on `crc32fast::hash`: the standard CRC32 of `data`.
#[verifier::external_body]
pub(crate) fn crc32(data: &[u8]) -> (r: u32)
    ensures
        crc32_post(r, data@),
        r == crc32_of(data@),
{
    crc32fast::hash(data)
}

} // verus!
