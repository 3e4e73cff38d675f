//! The decompressing half of the frame codec: gathers the compressed
//! stream chunk by chunk, rejecting a bad header as soon as it shows, and
//! on `finish` inflates the body and checks the trailer.

use vstd::prelude::*;
use crate::errors::CodecError;
use crate::frame::{
    framed_with, gzip_decode, size_mod32, truncated_frame, lemma_decode_laws,
    lemma_unframed_when_header_unsettled, lemma_unframed_when_short,
};
use crate::header::{parse_header, scan_header, HeaderResult};
use crate::primitives;
use crate::primitives::crc32_of;

verus! {

/// What the header scan of the bytes gathered so far already rules out:
/// the error a bad header forces, if any.
pub open spec fn header_issue(s: Seq<u8>) -> Option<CodecError> {
    match parse_header(s) {
        HeaderResult::BadMagic => Some(CodecError::MalformedHeader),
        HeaderResult::BadMethod => Some(CodecError::UnsupportedMethod),
        HeaderResult::More => None,
        HeaderResult::Done(_) => None,
    }
}

/// The state of one decompression run.  The compressed stream is gathered
/// as it arrives; the header is judged on every chunk, the body and
/// trailer when the stream is complete.  A finished decoder refuses
/// further calls.
#[derive(Debug)]
pub struct Decoder {
    data: Vec<u8>,
    finished: bool,
}

impl Decoder {
    /// The compressed bytes accepted so far.
    pub closed spec fn fed(self) -> Seq<u8> {
        self.data@
    }

    pub closed spec fn is_finished(self) -> bool {
        self.finished
    }

    /// Opens a decompression run.
    pub fn new() -> (r: Decoder)
        ensures
            r.fed() == Seq::<u8>::empty(),
            !r.is_finished(),
    {
        Decoder { data: Vec::new(), finished: false }
    }

    /// Accepts one chunk of the compressed stream.  A wrong magic or
    /// method byte is reported as soon as it has arrived; a sound prefix
    /// yields no output yet, since body and trailer can only be judged
    /// once the stream ends.
    pub fn transform(&mut self, chunk: &[u8]) -> (r: Result<Vec<u8>, CodecError>)
        requires
            old(self).fed().len() + chunk@.len() <= usize::MAX,
        ensures
            old(self).is_finished() ==> r == Err::<Vec<u8>, CodecError>(
                CodecError::StateAfterFinalize,
            ) && final(self).fed() == old(self).fed() && final(self).is_finished(),
            !old(self).is_finished() ==> {
                &&& final(self).fed() == old(self).fed() + chunk@
                &&& !final(self).is_finished()
                &&& (match header_issue(final(self).fed()) {
                    Some(e) => r == Err::<Vec<u8>, CodecError>(e),
                    None => r is Ok && (r->Ok_0)@ == Seq::<u8>::empty(),
                })
            },
    {
        if self.finished {
            return Err(CodecError::StateAfterFinalize);
        }
        let mut tmp = vstd::slice::slice_to_vec(chunk);
        self.data.append(&mut tmp);
        match scan_header(&self.data) {
            Err(e) => Err(e),
            Ok(_) => Ok(Vec::new()),
        }
    }

    /// Closes the run: the gathered stream must hold a complete header,
    /// a complete deflated body and the eight trailer bytes, and the
    /// trailer must match what the body decodes to.  The result is exactly
    /// [`gzip_decode`] of the gathered stream; the quantified clauses state
    /// the decode laws a well- or ill-framed stream is owed.
    pub fn finish(&mut self) -> (r: Result<Vec<u8>, CodecError>)
        ensures
            old(self).is_finished() ==> r == Err::<Vec<u8>, CodecError>(
                CodecError::StateAfterFinalize,
            ) && final(self).fed() == old(self).fed() && final(self).is_finished(),
            !old(self).is_finished() ==> {
                &&& final(self).is_finished()
                &&& final(self).fed() == old(self).fed()
                &&& (match gzip_decode(old(self).fed()) {
                    Ok(p) => r is Ok && (r->Ok_0)@ == p,
                    Err(e) => r == Err::<Vec<u8>, CodecError>(e),
                })
                &&& (forall|h: Seq<u8>, l: int, b: Seq<u8>, crc: u32|
                    #[trigger] framed_with(h, l, b, crc, old(self).fed()) && crc == crc32_of(b)
                        ==> r is Ok && (r->Ok_0)@ == b)
                &&& (forall|h: Seq<u8>, l: int, b: Seq<u8>, crc: u32|
                    #[trigger] framed_with(h, l, b, crc, old(self).fed()) && crc != crc32_of(b)
                        ==> r == Err::<Vec<u8>, CodecError>(CodecError::ChecksumMismatch))
                &&& (forall|h: Seq<u8>, l: int, b: Seq<u8>, crc: u32, n: int|
                    #[trigger] truncated_frame(h, l, b, crc, n, old(self).fed()) ==> r == Err::<
                        Vec<u8>,
                        CodecError,
                    >(CodecError::UnexpectedEof))
            },
    {
        if self.finished {
            return Err(CodecError::StateAfterFinalize);
        }
        self.finished = true;
        match scan_header(&self.data) {
            Err(e) => {
                proof {
                    lemma_unframed_when_header_unsettled(self.data@);
                }
                Err(e)
            },
            Ok(None) => {
                proof {
                    lemma_unframed_when_header_unsettled(self.data@);
                }
                Err(CodecError::UnexpectedEof)
            },
            Ok(Some(k)) => {
                let n = self.data.len();
                if n - k < 8 {
                    proof {
                        lemma_unframed_when_short(self.data@, k as int);
                    }
                    Err(CodecError::UnexpectedEof)
                } else {
                    let body = vstd::slice::slice_subrange(self.data.as_slice(), k, n - 8);
                    let inf = primitives::inflate(body);
                    proof {
                        lemma_decode_laws(self.data@);
                    }
                    match inf {
                        Err(e) => Err(e),
                        Ok(p) => {
                            let stored_crc = crate::bytes::read_le32(self.data.as_slice(), n - 8);
                            let c = primitives::crc32(p.as_slice());
                            proof {
                                let s = self.data@;
                                let tr = s.subrange(s.len() - 8, s.len() as int);
                                assert(tr.take(4) =~= s.subrange(s.len() - 8, s.len() - 4));
                                assert(tr.skip(4) =~= s.subrange(s.len() - 4, s.len() as int));
                            }
                            if stored_crc != c {
                                Err(CodecError::ChecksumMismatch)
                            } else {
                                let stored_size = crate::bytes::read_le32(
                                    self.data.as_slice(),
                                    n - 4,
                                );
                                let size = (p.len() as u64 % 0x1_0000_0000) as u32;
                                proof {
                                    assert(size == size_mod32(p@.len() as nat));
                                }
                                if stored_size != size {
                                    Err(CodecError::SizeMismatch)
                                } else {
                                    Ok(p)
                                }
                            }
                        },
                    }
                }
            },
        }
    }
}

} // verus!
