use gzpump::errors::CodecError;
use gzpump::pump::{compress_bytes, decompress_bytes};
use std::io::{Read, Write};

fn sample() -> Vec<u8> {
    let mut v = Vec::new();
    for i in 0..4000usize {
        v.push((i % 256) as u8 ^ (i / 7) as u8);
    }
    v
}

fn compressed_sample() -> Vec<u8> {
    compress_bytes(&sample(), 6, 512).unwrap().0
}

#[test]
fn flate2_decodes_our_stream() {
    let c = compressed_sample();
    let mut dec = flate2::read::GzDecoder::new(&c[..]);
    let mut out = Vec::new();
    dec.read_to_end(&mut out).unwrap();
    assert_eq!(out, sample());
}

#[test]
fn we_decode_flate2_stream() {
    let mut enc = flate2::write::GzEncoder::new(Vec::new(), flate2::Compression::new(6));
    enc.write_all(&sample()).unwrap();
    let c = enc.finish().unwrap();
    let (d, _) = decompress_bytes(&c, 333).unwrap();
    assert_eq!(d, sample());
}

#[test]
fn we_decode_flate2_stream_with_name_and_comment() {
    let inner = flate2::GzBuilder::new()
        .filename("sample.txt")
        .comment("a stream with optional fields")
        .write(Vec::new(), flate2::Compression::new(6));
    let mut enc = inner;
    enc.write_all(&sample()).unwrap();
    let c = enc.finish().unwrap();
    let (d, _) = decompress_bytes(&c, 100).unwrap();
    assert_eq!(d, sample());
}

#[test]
fn header_with_every_optional_field() {
    // A hand-built header: extra field, name, comment and header CRC all
    // present, followed by the body and trailer of a stream we produced.
    let c = compressed_sample();
    let mut s: Vec<u8> = vec![
        0x1f, 0x8b, 0x08, 0x1e, 0x00, 0x00, 0x00, 0x00, 0x00, 0xff,
    ];
    s.extend_from_slice(&[0x03, 0x00, 0xaa, 0xbb, 0xcc]); // extra: len 3, 3 bytes
    s.extend_from_slice(b"name.bin\0");
    s.extend_from_slice(b"a comment\0");
    s.extend_from_slice(&[0x12, 0x34]); // header CRC bytes are skipped, not checked
    s.extend_from_slice(&c[10..]);
    let (d, _) = decompress_bytes(&s, 64).unwrap();
    assert_eq!(d, sample());
}

#[test]
fn crc_bit_flips_detected() {
    let c = compressed_sample();
    let crc_at = c.len() - 8;
    for bit in 0..32 {
        let mut bad = c.clone();
        bad[crc_at + bit / 8] ^= 1 << (bit % 8);
        assert_eq!(
            decompress_bytes(&bad, 512).unwrap_err(),
            CodecError::ChecksumMismatch,
            "flipping trailer CRC bit {} was not caught",
            bit
        );
    }
}

#[test]
fn truncation_detected() {
    let c = compressed_sample();
    for n in 1..=8usize {
        let cut = &c[..c.len() - n];
        assert_eq!(
            decompress_bytes(cut, 512).unwrap_err(),
            CodecError::UnexpectedEof,
            "dropping {} trailing bytes was not caught",
            n
        );
    }
}

#[test]
fn size_mismatch_detected() {
    let mut c = compressed_sample();
    let size_at = c.len() - 4;
    c[size_at] ^= 0x01;
    assert_eq!(decompress_bytes(&c, 512).unwrap_err(), CodecError::SizeMismatch);
}

#[test]
fn bad_magic_detected() {
    let mut c = compressed_sample();
    c[0] = 0x1e;
    assert_eq!(decompress_bytes(&c, 512).unwrap_err(), CodecError::MalformedHeader);
    let mut c2 = compressed_sample();
    c2[1] = 0x8c;
    assert_eq!(decompress_bytes(&c2, 512).unwrap_err(), CodecError::MalformedHeader);
}

#[test]
fn bad_method_detected() {
    let mut c = compressed_sample();
    c[2] = 0x07;
    assert_eq!(decompress_bytes(&c, 512).unwrap_err(), CodecError::UnsupportedMethod);
}

#[test]
fn corrupt_body_detected() {
    // A reserved DEFLATE block type right where the body starts.
    let mut s: Vec<u8> = vec![
        0x1f, 0x8b, 0x08, 0x00, 0x00, 0x00, 0x00, 0x00, 0x00, 0xff,
    ];
    s.extend_from_slice(&[0x07]);
    s.extend_from_slice(&[0u8; 8]);
    assert_eq!(decompress_bytes(&s, 4).unwrap_err(), CodecError::CorruptStream);
}

#[test]
fn empty_and_short_streams_are_eof() {
    assert_eq!(decompress_bytes(&[], 4).unwrap_err(), CodecError::UnexpectedEof);
    let c = compressed_sample();
    assert_eq!(decompress_bytes(&c[..5], 4).unwrap_err(), CodecError::UnexpectedEof);
    assert_eq!(decompress_bytes(&c[..10], 4).unwrap_err(), CodecError::UnexpectedEof);
}

#[test]
fn header_only_with_pending_name_is_eof() {
    // FNAME announced but its terminating zero never arrives.
    let s: Vec<u8> = vec![
        0x1f, 0x8b, 0x08, 0x08, 0x00, 0x00, 0x00, 0x00, 0x00, 0xff, b'a', b'b',
    ];
    assert_eq!(decompress_bytes(&s, 4).unwrap_err(), CodecError::UnexpectedEof);
}
