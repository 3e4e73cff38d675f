use gzpump::codec::CodecState;
use gzpump::errors::{CodecError, Mode};
use gzpump::pump::compress_bytes;

#[test]
fn begin_rejects_level_ten() {
    assert_eq!(
        CodecState::begin(Mode::Compress, 10).unwrap_err(),
        CodecError::InvalidLevel
    );
    assert_eq!(
        CodecState::begin(Mode::Compress, 255).unwrap_err(),
        CodecError::InvalidLevel
    );
}

#[test]
fn begin_accepts_levels_up_to_nine() {
    for level in 0..=9u8 {
        assert!(CodecState::begin(Mode::Compress, level).is_ok());
    }
}

#[test]
fn begin_decompress_ignores_level() {
    assert!(CodecState::begin(Mode::Decompress, 10).is_ok());
    assert!(CodecState::begin(Mode::Decompress, 255).is_ok());
}

#[test]
fn transform_after_finish_is_refused() {
    let mut cs = CodecState::begin(Mode::Compress, 6).unwrap();
    cs.transform(b"abc").unwrap();
    cs.finish().unwrap();
    assert_eq!(cs.transform(b"more").unwrap_err(), CodecError::StateAfterFinalize);
    assert_eq!(cs.finish().unwrap_err(), CodecError::StateAfterFinalize);

    let mut ds = CodecState::begin(Mode::Decompress, 0).unwrap();
    let _ = ds.finish();
    assert_eq!(ds.transform(b"x").unwrap_err(), CodecError::StateAfterFinalize);
}

#[test]
fn finish_before_any_transform_accepts_empty_run() {
    let mut cs = CodecState::begin(Mode::Compress, 6).unwrap();
    let out = cs.finish().unwrap();
    assert_eq!(out[0], 0x1f);
    assert_eq!(out[1], 0x8b);
    assert_eq!(&out[out.len() - 8..], &[0u8; 8]);
}

#[test]
fn finish_on_empty_decompress_run_is_eof() {
    let mut ds = CodecState::begin(Mode::Decompress, 0).unwrap();
    assert_eq!(ds.finish().unwrap_err(), CodecError::UnexpectedEof);
}

#[test]
fn manual_pump_matches_bulk_compression() {
    let input: Vec<u8> = (0..3000u32).map(|i| (i % 251) as u8).collect();
    let (bulk, _) = compress_bytes(&input, 6, 100).unwrap();

    let mut cs = CodecState::begin(Mode::Compress, 6).unwrap();
    let mut manual = Vec::new();
    for chunk in input.chunks(64) {
        manual.extend_from_slice(&cs.transform(chunk).unwrap());
    }
    manual.extend_from_slice(&cs.finish().unwrap());
    assert_eq!(manual, bulk);
}

#[test]
fn manual_decompress_round_trip() {
    let input: Vec<u8> = (0..3000u32).map(|i| (i % 113) as u8).collect();
    let (c, _) = compress_bytes(&input, 6, 100).unwrap();

    let mut ds = CodecState::begin(Mode::Decompress, 0).unwrap();
    let mut out = Vec::new();
    for chunk in c.chunks(17) {
        out.extend_from_slice(&ds.transform(chunk).unwrap());
    }
    out.extend_from_slice(&ds.finish().unwrap());
    assert_eq!(out, input);
}

#[test]
fn decoder_rejects_bad_magic_as_it_arrives() {
    let mut ds = CodecState::begin(Mode::Decompress, 0).unwrap();
    assert!(ds.transform(&[0x1f]).is_ok());
    assert_eq!(ds.transform(&[0x00]).unwrap_err(), CodecError::MalformedHeader);
}

#[test]
fn errors_describe_themselves() {
    assert!(!CodecError::ChecksumMismatch.describe().is_empty());
    assert!(!CodecError::InvalidLevel.describe().is_empty());
    assert!(!CodecError::UnexpectedEof.describe().is_empty());
}
