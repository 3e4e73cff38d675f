//! The compressing half of the frame codec: accepts raw bytes chunk by
//! chunk, hands out the header on the first chunk, and closes the stream
//! with the deflated body and the CRC32/size trailer.

use vstd::prelude::*;
use crate::bytes::{le32, push_le32};
use crate::errors::CodecError;
use crate::frame::{gzip_stream_of, size_mod32, trailer_bytes};
use crate::header::{header_bytes, make_header};
use crate::primitives;
use crate::primitives::{crc32_of, deflate_of};

verus! {

/// The state of one compression run.  Transitions run strictly forward:
/// fresh, started (header handed out), finished (trailer handed out);
/// `transform` and `finish` refuse a finished encoder.
#[derive(Debug)]
pub struct Encoder {
    level: u8,
    data: Vec<u8>,
    started: bool,
    finished: bool,
}

/// What closing a run that never saw a byte hands out: the header if it is
/// still owed, the deflated empty body, and a trailer of two zero words.
pub open spec fn empty_run_out(started: bool, level: int) -> Seq<u8> {
    (if started {
        Seq::<u8>::empty()
    } else {
        header_bytes()
    }) + deflate_of(level, Seq::<u8>::empty()) + le32(0) + le32(0)
}

impl Encoder {
    /// The level is one the DEFLATE primitive accepts.
    pub closed spec fn wf(self) -> bool {
        self.level <= 9
    }

    /// The raw bytes accepted so far.
    pub closed spec fn fed(self) -> Seq<u8> {
        self.data@
    }

    pub closed spec fn level_spec(self) -> int {
        self.level as int
    }

    pub closed spec fn is_started(self) -> bool {
        self.started
    }

    pub closed spec fn is_finished(self) -> bool {
        self.finished
    }

    /// The bytes already handed to the caller while the run is open: the
    /// header once the first chunk has been seen, nothing before.
    pub closed spec fn emitted(self) -> Seq<u8> {
        if self.started {
            header_bytes()
        } else {
            Seq::<u8>::empty()
        }
    }

    /// Opens a compression run.  Levels above 9 are refused before any
    /// byte is processed.
    pub fn new(level: u8) -> (r: Result<Encoder, CodecError>)
        ensures
            level > 9 ==> r == Err::<Encoder, CodecError>(CodecError::InvalidLevel),
            level <= 9 ==> (r matches Ok(e) && e.wf() && e.level_spec() == level && e.fed()
                == Seq::<u8>::empty() && !e.is_started() && !e.is_finished() && e.emitted()
                == Seq::<u8>::empty()),
    {
        if level > 9 {
            return Err(CodecError::InvalidLevel);
        }
        Ok(Encoder { level, data: Vec::new(), started: false, finished: false })
    }

    /// Accepts one chunk of raw bytes.  The first chunk brings out the
    /// gzip header; every chunk's bytes join the body to be deflated.
    pub fn transform(&mut self, chunk: &[u8]) -> (r: Result<Vec<u8>, CodecError>)
        requires
            old(self).wf(),
            old(self).fed().len() + chunk@.len() <= usize::MAX,
        ensures
            final(self).wf(),
            final(self).level_spec() == old(self).level_spec(),
            old(self).is_finished() ==> r == Err::<Vec<u8>, CodecError>(
                CodecError::StateAfterFinalize,
            ) && final(self).fed() == old(self).fed() && final(self).is_finished(),
            !old(self).is_finished() ==> {
                &&& final(self).fed() == old(self).fed() + chunk@
                &&& final(self).is_started()
                &&& !final(self).is_finished()
                &&& r matches Ok(out) && out@ == (if old(self).is_started() {
                    Seq::<u8>::empty()
                } else {
                    header_bytes()
                })
                &&& old(self).emitted() + (r->Ok_0)@ == final(self).emitted()
            },
    {
        if self.finished {
            return Err(CodecError::StateAfterFinalize);
        }
        let out: Vec<u8> = if self.started {
            Vec::new()
        } else {
            make_header()
        };
        self.started = true;
        let mut tmp = vstd::slice::slice_to_vec(chunk);
        self.data.append(&mut tmp);
        Ok(out)
    }

    /// Closes the run: deflates the gathered body and appends the CRC32
    /// and size trailer.  What a whole run hands out is exactly
    /// [`gzip_stream_of`] the accepted bytes; for an empty input both
    /// trailer words are zero.
    pub fn finish(&mut self) -> (r: Result<Vec<u8>, CodecError>)
        requires
            old(self).wf(),
        ensures
            final(self).wf(),
            old(self).is_finished() ==> r == Err::<Vec<u8>, CodecError>(
                CodecError::StateAfterFinalize,
            ) && final(self).fed() == old(self).fed() && final(self).is_finished(),
            !old(self).is_finished() ==> {
                &&& final(self).is_finished()
                &&& final(self).fed() == old(self).fed()
                &&& r matches Ok(out) && old(self).emitted() + out@ == gzip_stream_of(
                    old(self).level_spec(),
                    old(self).fed(),
                )
                &&& (old(self).fed().len() == 0 ==> r is Ok && (r->Ok_0)@ == empty_run_out(
                    old(self).is_started(),
                    old(self).level_spec(),
                ))
            },
    {
        if self.finished {
            return Err(CodecError::StateAfterFinalize);
        }
        let mut out: Vec<u8> = if self.started {
            Vec::new()
        } else {
            make_header()
        };
        self.started = true;
        self.finished = true;
        let mut body = primitives::deflate(self.data.as_slice(), self.level);
        out.append(&mut body);
        let crc = primitives::crc32(self.data.as_slice());
        push_le32(&mut out, crc);
        let size = (self.data.len() as u64 % 0x1_0000_0000) as u32;
        push_le32(&mut out, size);
        proof {
            assert(size == size_mod32(self.data@.len() as nat));
            assert(old(self).emitted() + out@ =~= gzip_stream_of(
                old(self).level_spec(),
                old(self).fed(),
            ));
            if old(self).fed().len() == 0 {
                assert(self.data@ =~= Seq::<u8>::empty());
                assert(crc == 0);
                assert(size == 0);
            }
        }
        Ok(out)
    }
}

} // verus!
