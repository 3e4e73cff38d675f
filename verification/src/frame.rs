//! What a gzip stream is, as this crate reads and writes it: the header,
//! the deflated body, and the CRC32/size trailer, together with the exact
//! outcome of decoding any byte sequence.

use vstd::prelude::*;
use crate::bytes::{le32, le32_val, lemma_le32_roundtrip};
use crate::errors::CodecError;
use crate::header::{
    header_bytes, parse_header, valid_header, HeaderResult, lemma_parse_header_extend,
    lemma_parse_header_bounds,
};
use crate::primitives::{crc32_of, deflate_of, inflate_of, inflate_deflate_laws};

verus! {

/// A length reduced to the 32 bits the gzip trailer stores.
pub open spec fn size_mod32(n: nat) -> u32 {
    (n % 0x1_0000_0000) as u32
}

/// The eight trailer bytes: CRC32, then size, both little-endian.
pub open spec fn trailer_bytes(crc: u32, size: u32) -> Seq<u8> {
    le32(crc) + le32(size)
}

/// The one gzip stream this crate produces for `b` at the given level.
pub open spec fn gzip_stream_of(level: int, b: Seq<u8>) -> Seq<u8> {
    header_bytes() + deflate_of(level, b) + trailer_bytes(
        crc32_of(b),
        size_mod32(b.len()),
    )
}

/// What decoding the byte sequence `s` as one gzip member comes to.  The
/// header is scanned first; the last eight bytes are the trailer; what lies
/// between is the deflated body, and bytes between the body's end and the
/// trailer are ignored.  The CRC32 is checked before the size.
pub open spec fn gzip_decode(s: Seq<u8>) -> Result<Seq<u8>, CodecError> {
    match parse_header(s) {
        HeaderResult::BadMagic => Err(CodecError::MalformedHeader),
        HeaderResult::BadMethod => Err(CodecError::UnsupportedMethod),
        HeaderResult::More => Err(CodecError::UnexpectedEof),
        HeaderResult::Done(k) => {
            if s.len() < k + 8 {
                Err(CodecError::UnexpectedEof)
            } else {
                let body = s.subrange(k, s.len() - 8);
                let tr = s.subrange(s.len() - 8, s.len() as int);
                match inflate_of(body) {
                    Err(()) => Err(CodecError::CorruptStream),
                    Ok(None) => Err(CodecError::UnexpectedEof),
                    Ok(Some(p)) => {
                        if le32_val(tr.take(4)) != crc32_of(p) {
                            Err(CodecError::ChecksumMismatch)
                        } else if le32_val(tr.skip(4)) != size_mod32(p.len()) {
                            Err(CodecError::SizeMismatch)
                        } else {
                            Ok(p)
                        }
                    },
                }
            }
        },
    }
}

/// `s` carries the payload `b` deflated at `level` behind the complete
/// header `h`, with a trailer holding the given CRC32 word.
pub open spec fn framed_with(h: Seq<u8>, level: int, b: Seq<u8>, crc: u32, s: Seq<u8>) -> bool {
    &&& valid_header(h)
    &&& 0 <= level <= 9
    &&& s == h + deflate_of(level, b) + trailer_bytes(crc, size_mod32(b.len()))
}

/// Decoding a well-framed stream yields its payload when the trailer CRC32
/// is right, and `ChecksumMismatch` when it is not.
pub(crate) proof fn lemma_decode_framed(h: Seq<u8>, level: int, b: Seq<u8>, crc: u32, s: Seq<u8>)
    requires
        inflate_deflate_laws(),
        framed_with(h, level, b, crc, s),
    ensures
        crc == crc32_of(b) ==> gzip_decode(s) == Ok::<Seq<u8>, CodecError>(b),
        crc != crc32_of(b) ==> gzip_decode(s) == Err::<Seq<u8>, CodecError>(
            CodecError::ChecksumMismatch,
        ),
{
    let d = deflate_of(level, b);
    let tr = trailer_bytes(crc, size_mod32(b.len()));
    let tail = d + tr;
    assert(s =~= h + tail);
    lemma_parse_header_extend(h, tail);
    lemma_parse_header_bounds(h);
    let k = h.len() as int;
    assert(parse_header(s) == HeaderResult::Done(k));
    assert(s.len() == k + d.len() + 8);
    let body = s.subrange(k, s.len() - 8);
    assert(body =~= d + Seq::<u8>::empty());
    assert(inflate_of(d + Seq::<u8>::empty()) == Ok::<Option<Seq<u8>>, ()>(Some(b)));
    let t = s.subrange(s.len() - 8, s.len() as int);
    assert(t =~= tr);
    assert(t.take(4) =~= le32(crc));
    assert(t.skip(4) =~= le32(size_mod32(b.len())));
    lemma_le32_roundtrip(crc);
    lemma_le32_roundtrip(size_mod32(b.len()));
}

/// `s` is a stream that framed `b` as [`framed_with`] says, except that its
/// last `n` bytes, `1 <= n <= 8`, are gone.
pub open spec fn truncated_frame(
    h: Seq<u8>,
    level: int,
    b: Seq<u8>,
    crc: u32,
    n: int,
    s: Seq<u8>,
) -> bool {
    &&& valid_header(h)
    &&& 0 <= level <= 9
    &&& 1 <= n <= 8
    &&& s == (h + deflate_of(level, b) + trailer_bytes(crc, size_mod32(b.len()))).take(
        h.len() + deflate_of(level, b).len() + 8 - n,
    )
}

/// Decoding a well-framed stream that lost its last `n` trailing bytes,
/// `1 <= n <= 8`, stops with `UnexpectedEof`.
pub(crate) proof fn lemma_decode_truncated(h: Seq<u8>, level: int, b: Seq<u8>, crc: u32, s: Seq<u8>, n: int)
    requires
        inflate_deflate_laws(),
        truncated_frame(h, level, b, crc, n, s),
    ensures
        gzip_decode(s) == Err::<Seq<u8>, CodecError>(CodecError::UnexpectedEof),
{
    let d = deflate_of(level, b);
    let tr = trailer_bytes(crc, size_mod32(b.len()));
    let k = h.len() as int;
    let tail = (d + tr).take(d.len() + 8 - n);
    assert(s =~= h + tail);
    lemma_parse_header_extend(h, tail);
    lemma_parse_header_bounds(h);
    assert(parse_header(s) == HeaderResult::Done(k));
    assert(s.len() == k + d.len() + 8 - n);
    if d.len() < n {
        assert(s.len() < k + 8);
    } else {
        let body = s.subrange(k, s.len() - 8);
        assert(body =~= d.take(d.len() - n));
        if d.len() == n {
            assert(0 < d.len());
            assert(inflate_of(d.take(0)) == Ok::<Option<Seq<u8>>, ()>(None));
        } else {
            assert(inflate_of(d.take(d.len() - n)) == Ok::<Option<Seq<u8>>, ()>(None));
        }
    }
}

/// A stream whose header scan has settled on a complete header is at least
/// that long; no stream both frames a payload and fails its header scan.
pub(crate) proof fn lemma_framed_header_settled(h: Seq<u8>, level: int, b: Seq<u8>, crc: u32, s: Seq<u8>)
    requires
        valid_header(h),
        s == h + deflate_of(level, b) + trailer_bytes(crc, size_mod32(b.len())),
    ensures
        parse_header(s) == HeaderResult::Done(h.len() as int),
        s.len() >= h.len() + 8,
{
    let tail = deflate_of(level, b) + trailer_bytes(crc, size_mod32(b.len()));
    assert(s =~= h + tail);
    lemma_parse_header_extend(h, tail);
}

/// All the decode laws at once, for a stream whose decode the caller has in
/// hand: what a framed stream decodes to with a right or a wrong CRC32
/// word, and what a truncated framed stream decodes to.
pub(crate) proof fn lemma_decode_laws(s: Seq<u8>)
    requires
        inflate_deflate_laws(),
    ensures
        forall|h: Seq<u8>, l: int, b: Seq<u8>, crc: u32|
            #[trigger] framed_with(h, l, b, crc, s) && crc == crc32_of(b) ==> gzip_decode(s)
                == Ok::<Seq<u8>, CodecError>(b),
        forall|h: Seq<u8>, l: int, b: Seq<u8>, crc: u32|
            #[trigger] framed_with(h, l, b, crc, s) && crc != crc32_of(b) ==> gzip_decode(s)
                == Err::<Seq<u8>, CodecError>(CodecError::ChecksumMismatch),
        forall|h: Seq<u8>, l: int, b: Seq<u8>, crc: u32, n: int|
            #[trigger] truncated_frame(h, l, b, crc, n, s) ==> gzip_decode(s) == Err::<
                Seq<u8>,
                CodecError,
            >(CodecError::UnexpectedEof),
{
    assert forall|h: Seq<u8>, l: int, b: Seq<u8>, crc: u32|
        #[trigger] framed_with(h, l, b, crc, s) && crc == crc32_of(b) implies gzip_decode(s)
        == Ok::<Seq<u8>, CodecError>(b) by {
        lemma_decode_framed(h, l, b, crc, s);
    }
    assert forall|h: Seq<u8>, l: int, b: Seq<u8>, crc: u32|
        #[trigger] framed_with(h, l, b, crc, s) && crc != crc32_of(b) implies gzip_decode(s)
        == Err::<Seq<u8>, CodecError>(CodecError::ChecksumMismatch) by {
        lemma_decode_framed(h, l, b, crc, s);
    }
    assert forall|h: Seq<u8>, l: int, b: Seq<u8>, crc: u32, n: int|
        #[trigger] truncated_frame(h, l, b, crc, n, s) implies gzip_decode(s) == Err::<
        Seq<u8>,
        CodecError,
    >(CodecError::UnexpectedEof) by {
        lemma_decode_truncated(h, l, b, crc, s, n);
    }
}

/// A stream whose header scan has not settled on a complete header frames
/// nothing, whole or truncated.
pub(crate) proof fn lemma_unframed_when_header_unsettled(s: Seq<u8>)
    requires
        !(parse_header(s) is Done),
    ensures
        forall|h: Seq<u8>, l: int, b: Seq<u8>, crc: u32| !(#[trigger] framed_with(
            h,
            l,
            b,
            crc,
            s,
        )),
        forall|h: Seq<u8>, l: int, b: Seq<u8>, crc: u32, n: int| !(#[trigger] truncated_frame(
            h,
            l,
            b,
            crc,
            n,
            s,
        )),
{
    assert forall|h: Seq<u8>, l: int, b: Seq<u8>, crc: u32| !(#[trigger] framed_with(
        h,
        l,
        b,
        crc,
        s,
    )) by {
        if framed_with(h, l, b, crc, s) {
            lemma_framed_header_settled(h, l, b, crc, s);
        }
    }
    assert forall|h: Seq<u8>, l: int, b: Seq<u8>, crc: u32, n: int| !(#[trigger] truncated_frame(
        h,
        l,
        b,
        crc,
        n,
        s,
    )) by {
        if truncated_frame(h, l, b, crc, n, s) {
            let d = deflate_of(l, b);
            let tr = trailer_bytes(crc, size_mod32(b.len()));
            let tail = (d + tr).take(d.len() + 8 - n);
            assert(s =~= h + tail);
            lemma_parse_header_extend(h, tail);
        }
    }
}

/// A stream whose complete header leaves fewer than the eight trailer
/// bytes behind it frames nothing whole.
pub(crate) proof fn lemma_unframed_when_short(s: Seq<u8>, k: int)
    requires
        parse_header(s) == HeaderResult::Done(k),
        s.len() < k + 8,
    ensures
        forall|h: Seq<u8>, l: int, b: Seq<u8>, crc: u32| !(#[trigger] framed_with(
            h,
            l,
            b,
            crc,
            s,
        )),
{
    assert forall|h: Seq<u8>, l: int, b: Seq<u8>, crc: u32| !(#[trigger] framed_with(
        h,
        l,
        b,
        crc,
        s,
    )) by {
        if framed_with(h, l, b, crc, s) {
            lemma_framed_header_settled(h, l, b, crc, s);
        }
    }
}

} // verus!
