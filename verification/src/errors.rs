use vstd::prelude::*;

verus! {

/// Everything that can go wrong while framing or unframing a gzip stream.
///
/// The format-integrity errors (`MalformedHeader` through `SizeMismatch`)
/// arise only while decompressing; `InvalidLevel` and `StateAfterFinalize`
/// are caller mistakes; `IoError` is reserved for an embedding that moves
/// bytes in and out of the codec and has no source inside this crate.
#[derive(Clone, Copy, Debug, PartialEq, Eq, Structural)]
pub enum CodecError {
    /// A source or sink operation failed in the surrounding program.
    IoError,
    /// The stream does not begin with the gzip magic bytes `1f 8b`.
    MalformedHeader,
    /// The compression-method byte is not `08` (DEFLATE).
    UnsupportedMethod,
    /// The DEFLATE primitive rejected the compressed body.
    CorruptStream,
    /// The stream stops before header, body and trailer are complete.
    UnexpectedEof,
    /// The trailer CRC32 differs from the checksum of the decompressed bytes.
    ChecksumMismatch,
    /// The trailer size field differs from the decompressed length mod 2^32.
    SizeMismatch,
    /// The requested compression level is outside 0..=9.
    InvalidLevel,
    /// `transform` or `finish` was called on an already finalized codec.
    StateAfterFinalize,
}

/// The two directions a codec run can take.
#[derive(Clone, Copy, Debug, PartialEq, Eq, Structural)]
pub enum Mode {
    Compress,
    Decompress,
}

impl CodecError {
    /// A short human-readable description, for embeddings that report errors.
    pub fn describe(&self) -> (r: &'static str)
        ensures
            r@.len() > 0,
    {
        let s: &'static str = match self {
            CodecError::IoError => "input or output failed",
            CodecError::MalformedHeader => "not a gzip stream: bad magic bytes",
            CodecError::UnsupportedMethod => "unsupported compression method",
            CodecError::CorruptStream => "corrupt deflate data",
            CodecError::UnexpectedEof => "unexpected end of stream",
            CodecError::ChecksumMismatch => "trailer checksum mismatch",
            CodecError::SizeMismatch => "trailer size mismatch",
            CodecError::InvalidLevel => "compression level out of range",
            CodecError::StateAfterFinalize => "codec already finalized",
        };
        proof {
            reveal_strlit("input or output failed");
            reveal_strlit("not a gzip stream: bad magic bytes");
            reveal_strlit("unsupported compression method");
            reveal_strlit("corrupt deflate data");
            reveal_strlit("unexpected end of stream");
            reveal_strlit("trailer checksum mismatch");
            reveal_strlit("trailer size mismatch");
            reveal_strlit("compression level out of range");
            reveal_strlit("codec already finalized");
        }
        s
    }
}

} // verus!
