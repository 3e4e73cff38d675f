//! The gzip member header: the fixed ten bytes this crate writes, and a
//! parser for any header the format allows, optional fields included.

use vstd::prelude::*;
use crate::errors::CodecError;

verus! {

/// The ten-byte header this crate writes: magic `1f 8b`, method 8
/// (DEFLATE), no flags, no modification time, no extra flags, unknown
/// operating system.
pub open spec fn header_bytes() -> Seq<u8> {
    seq![0x1fu8, 0x8bu8, 0x08u8, 0x00u8, 0x00u8, 0x00u8, 0x00u8, 0x00u8, 0x00u8, 0xffu8]
}

/// What scanning a byte stream for a gzip header can come to: the header
/// is complete and the body starts at the given offset, more bytes are
/// needed, the magic bytes are wrong, or the method byte is not DEFLATE.
pub enum HeaderResult {
    Done(int),
    More,
    BadMagic,
    BadMethod,
}

/// The position right after the zero byte that ends a zero-terminated
/// field starting at `i`, or `None` if the stream stops first.
pub open spec fn skip_zeros(s: Seq<u8>, i: int) -> Option<int>
    decreases s.len() - i,
{
    if i < 0 || i >= s.len() {
        None
    } else if s[i] == 0 {
        Some(i + 1)
    } else {
        skip_zeros(s, i + 1)
    }
}

/// The position right after an extra field whose two-byte little-endian
/// length starts at `i`, or `None` if the stream stops first.
pub open spec fn skip_extra(s: Seq<u8>, i: int) -> Option<int> {
    if i + 2 <= s.len() {
        let xlen = s[i] as int + 256 * (s[i + 1] as int);
        if i + 2 + xlen <= s.len() {
            Some(i + 2 + xlen)
        } else {
            None
        }
    } else {
        None
    }
}

/// The position right after the optional fields the flag byte announces:
/// extra field, original name, comment, then header CRC, in the order the
/// format fixes.  `None` if the stream stops inside one of them.
pub open spec fn opt_fields_end(s: Seq<u8>, flags: u8) -> Option<int> {
    let a = if flags & 0x04 != 0 {
        skip_extra(s, 10)
    } else {
        Some(10)
    };
    match a {
        None => None,
        Some(j) => {
            let b = if flags & 0x08 != 0 {
                skip_zeros(s, j)
            } else {
                Some(j)
            };
            match b {
                None => None,
                Some(k) => {
                    let c = if flags & 0x10 != 0 {
                        skip_zeros(s, k)
                    } else {
                        Some(k)
                    };
                    match c {
                        None => None,
                        Some(l) => {
                            if flags & 0x02 != 0 {
                                if l + 2 <= s.len() {
                                    Some(l + 2)
                                } else {
                                    None
                                }
                            } else {
                                Some(l)
                            }
                        },
                    }
                },
            }
        },
    }
}

/// Scans the front of `s` for a gzip header.  Wrong magic or method bytes
/// are reported as soon as the offending byte is present; otherwise the
/// scan needs the fixed ten bytes and whatever optional fields the flag
/// byte announces.  Reserved flag bits are ignored, and a header CRC is
/// skipped without being checked.
pub open spec fn parse_header(s: Seq<u8>) -> HeaderResult {
    if s.len() >= 1 && s[0] != 0x1f {
        HeaderResult::BadMagic
    } else if s.len() >= 2 && s[1] != 0x8b {
        HeaderResult::BadMagic
    } else if s.len() >= 3 && s[2] != 0x08 {
        HeaderResult::BadMethod
    } else if s.len() < 10 {
        HeaderResult::More
    } else {
        match opt_fields_end(s, s[3]) {
            Some(k) => HeaderResult::Done(k),
            None => HeaderResult::More,
        }
    }
}

/// `h` is exactly one complete gzip header, with nothing after it.
pub open spec fn valid_header(h: Seq<u8>) -> bool {
    parse_header(h) == HeaderResult::Done(h.len() as int)
}

/// A complete header is at least the fixed ten bytes and lies within the
/// scanned stream.
pub proof fn lemma_parse_header_bounds(s: Seq<u8>)
    ensures
        parse_header(s) matches HeaderResult::Done(k) ==> 10 <= k <= s.len(),
{
    if parse_header(s) matches HeaderResult::Done(k) {
        let flags = s[3];
        let a = if flags & 0x04 != 0 {
            skip_extra(s, 10)
        } else {
            Some(10)
        };
        assert(a matches Some(j) ==> 10 <= j <= s.len());
        let j = a->0;
        let b = if flags & 0x08 != 0 {
            skip_zeros(s, j)
        } else {
            Some(j)
        };
        lemma_skip_zeros_bounds(s, j);
        let k1 = b->0;
        let c = if flags & 0x10 != 0 {
            skip_zeros(s, k1)
        } else {
            Some(k1)
        };
        lemma_skip_zeros_bounds(s, k1);
    }
}

/// Where a zero-terminated field ends, it ends past its start and within
/// the stream.
pub proof fn lemma_skip_zeros_bounds(s: Seq<u8>, i: int)
    ensures
        skip_zeros(s, i) matches Some(j) ==> i < j <= s.len(),
    decreases s.len() - i,
{
    if i < 0 || i >= s.len() {
    } else if s[i] == 0 {
    } else {
        lemma_skip_zeros_bounds(s, i + 1);
    }
}

/// Bytes appended after a found terminator do not move it.
pub proof fn lemma_skip_zeros_extend(s: Seq<u8>, t: Seq<u8>, i: int)
    ensures
        skip_zeros(s, i) matches Some(j) ==> skip_zeros(s + t, i) == Some(j),
    decreases s.len() - i,
{
    if i < 0 || i >= s.len() {
    } else {
        assert((s + t)[i] == s[i]);
        if s[i] == 0 {
        } else {
            lemma_skip_zeros_extend(s, t, i + 1);
        }
    }
}

/// A header scan that has settled — a complete header or an early
/// rejection — is not changed by the bytes that follow.
pub proof fn lemma_parse_header_extend(s: Seq<u8>, t: Seq<u8>)
    ensures
        parse_header(s) matches HeaderResult::Done(k) ==> parse_header(s + t)
            == HeaderResult::Done(k),
        parse_header(s) == HeaderResult::BadMagic ==> parse_header(s + t)
            == HeaderResult::BadMagic,
        parse_header(s) == HeaderResult::BadMethod ==> parse_header(s + t)
            == HeaderResult::BadMethod,
{
    let u = s + t;
    assert(forall|i: int| 0 <= i < s.len() ==> u[i] == s[i]);
    if parse_header(s) matches HeaderResult::Done(k) {
        let flags = s[3];
        lemma_parse_header_bounds(s);
        if flags & 0x04 != 0 {
            assert(skip_extra(s, 10) matches Some(j) ==> skip_extra(u, 10) == Some(j));
        }
        let a = if flags & 0x04 != 0 {
            skip_extra(s, 10)
        } else {
            Some(10)
        };
        let j = a->0;
        lemma_skip_zeros_bounds(s, j);
        lemma_skip_zeros_extend(s, t, j);
        let b = if flags & 0x08 != 0 {
            skip_zeros(s, j)
        } else {
            Some(j)
        };
        let k1 = b->0;
        lemma_skip_zeros_bounds(s, k1);
        lemma_skip_zeros_extend(s, t, k1);
    }
}

/// The header this crate writes parses as a complete header, whatever
/// follows it.
pub proof fn lemma_own_header_valid()
    ensures
        valid_header(header_bytes()),
{
    let h = header_bytes();
    assert(h[0] == 0x1f && h[1] == 0x8b && h[2] == 0x08 && h[3] == 0);
    assert(0u8 & 0x04 == 0 && 0u8 & 0x08 == 0 && 0u8 & 0x10 == 0 && 0u8 & 0x02 == 0)
        by (bit_vector);
    assert(opt_fields_end(h, 0) == Some(10int));
}

/// Builds the ten-byte header this crate writes.
pub fn make_header() -> (r: Vec<u8>)
    ensures
        r@ == header_bytes(),
{
    let mut v: Vec<u8> = Vec::new();
    v.push(0x1f);
    v.push(0x8b);
    v.push(0x08);
    v.push(0x00);
    v.push(0x00);
    v.push(0x00);
    v.push(0x00);
    v.push(0x00);
    v.push(0x00);
    v.push(0xff);
    assert(v@ =~= header_bytes());
    v
}

/// Finds the zero byte that ends a field, as [`skip_zeros`] describes.
fn scan_zeros(data: &Vec<u8>, start: usize) -> (r: Option<usize>)
    requires
        start <= data@.len(),
    ensures
        match r {
            Some(j) => skip_zeros(data@, start as int) == Some(j as int) && start < j
                <= data@.len(),
            None => skip_zeros(data@, start as int) is None,
        },
{
    let n = data.len();
    let mut i = start;
    while i < n
        invariant
            start <= i <= n,
            n == data@.len(),
            skip_zeros(data@, start as int) == skip_zeros(data@, i as int),
        decreases n - i,
    {
        if data[i] == 0 {
            return Some(i + 1);
        }
        i = i + 1;
    }
    None
}

/// Scans the bytes gathered so far for a gzip header, as [`parse_header`]
/// describes: `Ok(Some(k))` when the header is complete and the body starts
/// at `k`, `Ok(None)` when more bytes are needed.
pub fn scan_header(data: &Vec<u8>) -> (r: Result<Option<usize>, CodecError>)
    ensures
        match r {
            Ok(Some(k)) => parse_header(data@) == HeaderResult::Done(k as int) && 10 <= k
                <= data@.len(),
            Ok(None) => parse_header(data@) == HeaderResult::More,
            Err(CodecError::MalformedHeader) => parse_header(data@) == HeaderResult::BadMagic,
            Err(CodecError::UnsupportedMethod) => parse_header(data@) == HeaderResult::BadMethod,
            Err(_) => false,
        },
{
    let n = data.len();
    if n >= 1 && data[0] != 0x1f {
        return Err(CodecError::MalformedHeader);
    }
    if n >= 2 && data[1] != 0x8b {
        return Err(CodecError::MalformedHeader);
    }
    if n >= 3 && data[2] != 0x08 {
        return Err(CodecError::UnsupportedMethod);
    }
    if n < 10 {
        return Ok(None);
    }
    let flags = data[3];
    let mut i: usize = 10;
    if flags & 0x04 != 0 {
        if n - i < 2 {
            return Ok(None);
        }
        let xlen: usize = data[i] as usize + 256 * (data[i + 1] as usize);
        if n - i - 2 < xlen {
            assert(skip_extra(data@, 10) is None);
            return Ok(None);
        }
        i = i + 2 + xlen;
        assert(skip_extra(data@, 10) == Some(i as int));
    }
    assert((if flags & 0x04 != 0 {
        skip_extra(data@, 10)
    } else {
        Some(10int)
    }) == Some(i as int));
    if flags & 0x08 != 0 {
        match scan_zeros(data, i) {
            Some(j) => {
                i = j;
            },
            None => {
                return Ok(None);
            },
        }
    }
    if flags & 0x10 != 0 {
        match scan_zeros(data, i) {
            Some(j) => {
                i = j;
            },
            None => {
                return Ok(None);
            },
        }
    }
    if flags & 0x02 != 0 {
        if n - i < 2 {
            return Ok(None);
        }
        i = i + 2;
    }
    Ok(Some(i))
}

} // verus!
