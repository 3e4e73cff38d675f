//! The frame codec as one state machine: `begin` picks the direction,
//! `transform` moves one chunk, `finish` closes the stream.  Each state is
//! single-use and moves strictly forward; a finished codec refuses work.

use vstd::prelude::*;
use crate::decode::{header_issue, Decoder};
use crate::encode::Encoder;
use crate::errors::{CodecError, Mode};
use crate::frame::{gzip_decode, gzip_stream_of};
use crate::header::header_bytes;

verus! {

/// One in-progress transform, in the direction chosen at [`CodecState::begin`].
#[derive(Debug)]
pub enum CodecState {
    Compressing(Encoder),
    Expanding(Decoder),
}

impl CodecState {
    pub open spec fn wf(self) -> bool {
        match self {
            CodecState::Compressing(e) => e.wf(),
            CodecState::Expanding(_) => true,
        }
    }

    /// The bytes accepted so far: raw bytes when compressing, the framed
    /// stream when decompressing.
    pub open spec fn fed(self) -> Seq<u8> {
        match self {
            CodecState::Compressing(e) => e.fed(),
            CodecState::Expanding(d) => d.fed(),
        }
    }

    pub open spec fn is_finished(self) -> bool {
        match self {
            CodecState::Compressing(e) => e.is_finished(),
            CodecState::Expanding(d) => d.is_finished(),
        }
    }

    /// The bytes already handed out while compressing.
    pub open spec fn emitted(self) -> Seq<u8> {
        match self {
            CodecState::Compressing(e) => e.emitted(),
            CodecState::Expanding(_) => Seq::<u8>::empty(),
        }
    }

    /// Whether the first chunk has been seen; only a compressing run
    /// still owes its header before that.
    pub open spec fn is_started(self) -> bool {
        match self {
            CodecState::Compressing(e) => e.is_started(),
            CodecState::Expanding(_) => true,
        }
    }

    pub open spec fn level_spec(self) -> int {
        match self {
            CodecState::Compressing(e) => e.level_spec(),
            CodecState::Expanding(_) => 0,
        }
    }

    /// Opens a run.  When compressing, levels above 9 are refused before
    /// any byte is processed; when decompressing, the level is ignored.
    pub fn begin(mode: Mode, level: u8) -> (r: Result<CodecState, CodecError>)
        ensures
            mode == Mode::Compress && level > 9 ==> r == Err::<CodecState, CodecError>(
                CodecError::InvalidLevel,
            ),
            mode == Mode::Compress && level <= 9 ==> (r matches Ok(cs) && cs.wf() && cs
                is Compressing && cs.level_spec() == level && cs.fed() == Seq::<u8>::empty()
                && !cs.is_finished() && cs.emitted() == Seq::<u8>::empty()),
            mode == Mode::Decompress ==> (r matches Ok(cs) && cs.wf() && cs is Expanding
                && cs.fed() == Seq::<u8>::empty() && !cs.is_finished()),
    {
        match mode {
            Mode::Compress => {
                match Encoder::new(level) {
                    Ok(e) => Ok(CodecState::Compressing(e)),
                    Err(e) => Err(e),
                }
            },
            Mode::Decompress => Ok(CodecState::Expanding(Decoder::new())),
        }
    }

    /// Moves one chunk through the codec, as [`Encoder::transform`] or
    /// [`Decoder::transform`] does for the chosen direction.
    pub fn transform(&mut self, chunk: &[u8]) -> (r: Result<Vec<u8>, CodecError>)
        requires
            old(self).wf(),
            old(self).fed().len() + chunk@.len() <= usize::MAX,
        ensures
            final(self).wf(),
            (*final(self)) is Compressing <==> (*old(self)) is Compressing,
            final(self).level_spec() == old(self).level_spec(),
            old(self).is_finished() ==> r == Err::<Vec<u8>, CodecError>(
                CodecError::StateAfterFinalize,
            ) && final(self).fed() == old(self).fed() && final(self).is_finished(),
            !old(self).is_finished() && (*old(self)) is Compressing ==> {
                &&& final(self).fed() == old(self).fed() + chunk@
                &&& !final(self).is_finished()
                &&& r matches Ok(out) && out@ == (if old(self).is_started() {
                    Seq::<u8>::empty()
                } else {
                    header_bytes()
                })
                &&& old(self).emitted() + (r->Ok_0)@ == final(self).emitted()
            },
            !old(self).is_finished() && (*old(self)) is Expanding ==> {
                &&& final(self).fed() == old(self).fed() + chunk@
                &&& !final(self).is_finished()
                &&& (match header_issue(final(self).fed()) {
                    Some(e) => r == Err::<Vec<u8>, CodecError>(e),
                    None => r is Ok && (r->Ok_0)@ == Seq::<u8>::empty(),
                })
            },
    {
        match self {
            CodecState::Compressing(e) => e.transform(chunk),
            CodecState::Expanding(d) => d.transform(chunk),
        }
    }

    /// Closes the run, as [`Encoder::finish`] or [`Decoder::finish`] does
    /// for the chosen direction: a whole compressing run has handed out
    /// exactly [`gzip_stream_of`] its bytes, a whole decompressing run
    /// exactly [`gzip_decode`] of its stream.
    pub fn finish(&mut self) -> (r: Result<Vec<u8>, CodecError>)
        requires
            old(self).wf(),
        ensures
            final(self).wf(),
            old(self).is_finished() ==> r == Err::<Vec<u8>, CodecError>(
                CodecError::StateAfterFinalize,
            ) && final(self).fed() == old(self).fed() && final(self).is_finished(),
            !old(self).is_finished() ==> final(self).is_finished() && final(self).fed() == old(
                self,
            ).fed(),
            !old(self).is_finished() && (*old(self)) is Compressing ==> (r matches Ok(out) && old(
                self,
            ).emitted() + out@ == gzip_stream_of(old(self).level_spec(), old(self).fed())),
            !old(self).is_finished() && (*old(self)) is Expanding ==> (match gzip_decode(
                old(self).fed(),
            ) {
                Ok(p) => r is Ok && (r->Ok_0)@ == p,
                Err(e) => r == Err::<Vec<u8>, CodecError>(e),
            }),
    {
        match self {
            CodecState::Compressing(e) => e.finish(),
            CodecState::Expanding(d) => d.finish(),
        }
    }
}

} // verus!
