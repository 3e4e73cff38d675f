//! A gzip (RFC 1952) streaming integration layer: chunked framing around a
//! trusted DEFLATE primitive.
//!
//! The library builds and checks gzip framing itself — the fixed header,
//! the optional header fields, and the CRC32/size trailer — and drives the
//! compression or decompression of a byte stream chunk by chunk with a
//! bounded chunk size.  The raw DEFLATE transform and the CRC32 checksum are
//! supplied by outside crates behind a small set of trusted wrappers.

pub mod bytes;
pub mod errors;
pub mod primitives;
pub mod header;
pub mod frame;
pub mod encode;
pub mod decode;
pub mod codec;
pub mod pump;
