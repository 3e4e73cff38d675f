//! The stream pump: drives a whole byte stream through the frame codec in
//! chunks of a caller-chosen capacity, with the aggregate sizes reported.

use vstd::prelude::*;
use crate::decode::Decoder;
use crate::encode::Encoder;
use crate::errors::{CodecError, Mode};
use crate::frame::{framed_with, gzip_decode, gzip_stream_of, truncated_frame};
use crate::header::{header_bytes, lemma_own_header_valid, lemma_parse_header_extend};
use crate::primitives::crc32_of;

verus! {

/// Aggregate sizes of one pump run.  Wall time is the embedding's concern
/// and is measured outside the codec.
#[derive(Clone, Copy, Debug, PartialEq, Eq, Structural)]
pub struct PumpReport {
    pub input_bytes: usize,
    pub output_bytes: usize,
}

/// Compresses `input` by pumping it through an [`Encoder`] in chunks of at
/// most `chunk_cap` bytes.  The output is pinned by the level and the
/// input alone, so any two chunk capacities yield the same stream.
pub fn compress_bytes(input: &[u8], level: u8, chunk_cap: usize) -> (r: Result<
    (Vec<u8>, PumpReport),
    CodecError,
>)
    requires
        chunk_cap >= 1,
    ensures
        level > 9 ==> r == Err::<(Vec<u8>, PumpReport), CodecError>(CodecError::InvalidLevel),
        level <= 9 ==> r is Ok && (r->Ok_0).0@ == gzip_stream_of(level as int, input@) && (
        r->Ok_0).1.input_bytes == input@.len() && (r->Ok_0).1.output_bytes == (
        r->Ok_0).0@.len(),
{
    let mut enc = match Encoder::new(level) {
        Ok(e) => e,
        Err(e) => {
            return Err(e);
        },
    };
    let n = input.len();
    let mut acc: Vec<u8> = Vec::new();
    let mut i: usize = 0;
    while i < n
        invariant
            i <= n,
            n == input@.len(),
            chunk_cap >= 1,
            enc.wf(),
            !enc.is_finished(),
            enc.level_spec() == level as int,
            enc.fed() == input@.take(i as int),
            acc@ == enc.emitted(),
        decreases n - i,
    {
        let j = if n - i < chunk_cap {
            n
        } else {
            i + chunk_cap
        };
        let chunk = vstd::slice::slice_subrange(input, i, j);
        match enc.transform(chunk) {
            Ok(mut piece) => {
                acc.append(&mut piece);
            },
            Err(_) => {
                proof {
                    assert(false);
                }
            },
        }
        proof {
            assert(input@.take(i as int) + input@.subrange(i as int, j as int) =~= input@.take(
                j as int,
            ));
        }
        i = j;
    }
    proof {
        assert(input@.take(n as int) =~= input@);
    }
    let tail = match enc.finish() {
        Ok(t) => t,
        Err(_) => {
            proof {
                assert(false);
            }
            return Err(CodecError::StateAfterFinalize);
        },
    };
    let mut out = acc;
    let mut tail = tail;
    out.append(&mut tail);
    let rep = PumpReport { input_bytes: n, output_bytes: out.len() };
    Ok((out, rep))
}

/// Decompresses the gzip stream `input` by pumping it through a
/// [`Decoder`] in chunks of at most `chunk_cap` bytes.  The result is
/// exactly [`gzip_decode`] of the input; the quantified clauses state the
/// decode laws for well-framed, ill-checksummed and truncated streams.
pub fn decompress_bytes(input: &[u8], chunk_cap: usize) -> (r: Result<
    (Vec<u8>, PumpReport),
    CodecError,
>)
    requires
        chunk_cap >= 1,
    ensures
        (match gzip_decode(input@) {
            Ok(p) => r is Ok && (r->Ok_0).0@ == p && (r->Ok_0).1.input_bytes == input@.len()
                && (r->Ok_0).1.output_bytes == p.len(),
            Err(e) => r == Err::<(Vec<u8>, PumpReport), CodecError>(e),
        }),
        (forall|l: int, b: Seq<u8>|
            0 <= l <= 9 && input@ == gzip_stream_of(l, b) ==> r is Ok && (r->Ok_0).0@ == b),
        (forall|h: Seq<u8>, l: int, b: Seq<u8>, crc: u32|
            #[trigger] framed_with(h, l, b, crc, input@) && crc == crc32_of(b) ==> r is Ok && (
            r->Ok_0).0@ == b),
        (forall|h: Seq<u8>, l: int, b: Seq<u8>, crc: u32|
            #[trigger] framed_with(h, l, b, crc, input@) && crc != crc32_of(b) ==> r == Err::<
                (Vec<u8>, PumpReport),
                CodecError,
            >(CodecError::ChecksumMismatch)),
        (forall|h: Seq<u8>, l: int, b: Seq<u8>, crc: u32, n: int|
            #[trigger] truncated_frame(h, l, b, crc, n, input@) ==> r == Err::<
                (Vec<u8>, PumpReport),
                CodecError,
            >(CodecError::UnexpectedEof)),
{
    let mut dec = Decoder::new();
    let n = input.len();
    let mut i: usize = 0;
    while i < n
        invariant
            i <= n,
            n == input@.len(),
            chunk_cap >= 1,
            !dec.is_finished(),
            dec.fed() == input@.take(i as int),
        decreases n - i,
    {
        let j = if n - i < chunk_cap {
            n
        } else {
            i + chunk_cap
        };
        let chunk = vstd::slice::slice_subrange(input, i, j);
        match dec.transform(chunk) {
            Ok(_) => {},
            Err(e) => {
                proof {
                    let pre = input@.take(i as int) + input@.subrange(i as int, j as int);
                    assert(pre =~= input@.take(j as int));
                    assert(dec.fed() == input@.take(j as int));
                    lemma_parse_header_extend(input@.take(j as int), input@.skip(j as int));
                    assert(input@.take(j as int) + input@.skip(j as int) =~= input@);
                    crate::frame::lemma_unframed_when_header_unsettled(input@);
                    assert forall|l: int, b: Seq<u8>|
                        !(0 <= l <= 9 && input@ == gzip_stream_of(l, b)) by {
                        if 0 <= l <= 9 && input@ == gzip_stream_of(l, b) {
                            lemma_own_header_valid();
                            assert(framed_with(header_bytes(), l, b, crc32_of(b), input@));
                        }
                    }
                }
                return Err(e);
            },
        }
        proof {
            assert(input@.take(i as int) + input@.subrange(i as int, j as int) =~= input@.take(
                j as int,
            ));
        }
        i = j;
    }
    proof {
        assert(input@.take(n as int) =~= input@);
        assert(dec.fed() == input@);
    }
    let ghost fedv = dec.fed();
    match dec.finish() {
        Ok(v) => {
            proof {
                assert forall|h: Seq<u8>, l: int, b: Seq<u8>, crc: u32|
                    #[trigger] framed_with(h, l, b, crc, input@) && crc == crc32_of(b) implies v@
                    == b by {
                    assert(framed_with(h, l, b, crc, fedv));
                }
                assert forall|h: Seq<u8>, l: int, b: Seq<u8>, crc: u32| !(#[trigger] framed_with(
                    h,
                    l,
                    b,
                    crc,
                    input@,
                ) && crc != crc32_of(b)) by {
                    if framed_with(h, l, b, crc, input@) && crc != crc32_of(b) {
                        assert(framed_with(h, l, b, crc, fedv));
                    }
                }
                assert forall|h: Seq<u8>, l: int, b: Seq<u8>, crc: u32, n0: int| !(
                #[trigger] truncated_frame(h, l, b, crc, n0, input@)) by {
                    if truncated_frame(h, l, b, crc, n0, input@) {
                        assert(truncated_frame(h, l, b, crc, n0, fedv));
                    }
                }
                assert forall|l: int, b: Seq<u8>|
                    0 <= l <= 9 && input@ == gzip_stream_of(l, b) implies v@ == b by {
                    lemma_own_header_valid();
                    assert(framed_with(header_bytes(), l, b, crc32_of(b), input@));
                }
            }
            let rep = PumpReport { input_bytes: n, output_bytes: v.len() };
            Ok((v, rep))
        },
        Err(e) => {
            proof {
                assert forall|h: Seq<u8>, l: int, b: Seq<u8>, crc: u32| !(#[trigger] framed_with(
                    h,
                    l,
                    b,
                    crc,
                    input@,
                ) && crc == crc32_of(b)) by {
                    if framed_with(h, l, b, crc, input@) && crc == crc32_of(b) {
                        assert(framed_with(h, l, b, crc, fedv));
                    }
                }
                assert forall|h: Seq<u8>, l: int, b: Seq<u8>, crc: u32|
                    #[trigger] framed_with(h, l, b, crc, input@) && crc != crc32_of(b) implies e
                    == CodecError::ChecksumMismatch by {
                    assert(framed_with(h, l, b, crc, fedv));
                }
                assert forall|h: Seq<u8>, l: int, b: Seq<u8>, crc: u32, n0: int|
                    #[trigger] truncated_frame(h, l, b, crc, n0, input@) implies e
                    == CodecError::UnexpectedEof by {
                    assert(truncated_frame(h, l, b, crc, n0, fedv));
                }
                assert forall|l: int, b: Seq<u8>|
                    !(0 <= l <= 9 && input@ == gzip_stream_of(l, b)) by {
                    if 0 <= l <= 9 && input@ == gzip_stream_of(l, b) {
                        lemma_own_header_valid();
                        assert(framed_with(header_bytes(), l, b, crc32_of(b), input@));
                    }
                }
            }
            Err(e)
        },
    }
}

/// One whole run, as the caller selects it: compress or decompress
/// `input` through the frame codec in chunks of at most `chunk_cap`
/// bytes.  The level only matters when compressing and is ignored
/// otherwise.
pub fn run(input: &[u8], mode: Mode, level: u8, chunk_cap: usize) -> (r: Result<
    (Vec<u8>, PumpReport),
    CodecError,
>)
    requires
        chunk_cap >= 1,
    ensures
        mode == Mode::Compress && level > 9 ==> r == Err::<(Vec<u8>, PumpReport), CodecError>(
            CodecError::InvalidLevel,
        ),
        mode == Mode::Compress && level <= 9 ==> r is Ok && (r->Ok_0).0@ == gzip_stream_of(
            level as int,
            input@,
        ) && (r->Ok_0).1.input_bytes == input@.len() && (r->Ok_0).1.output_bytes == (
        r->Ok_0).0@.len(),
        mode == Mode::Decompress ==> (match gzip_decode(input@) {
            Ok(p) => r is Ok && (r->Ok_0).0@ == p && (r->Ok_0).1.input_bytes == input@.len()
                && (r->Ok_0).1.output_bytes == p.len(),
            Err(e) => r == Err::<(Vec<u8>, PumpReport), CodecError>(e),
        }),
{
    match mode {
        Mode::Compress => compress_bytes(input, level, chunk_cap),
        Mode::Decompress => decompress_bytes(input, chunk_cap),
    }
}

} // verus!
