use gzpump::errors::{CodecError, Mode};
use gzpump::pump::{compress_bytes, decompress_bytes, run};

fn patterned(n: usize) -> Vec<u8> {
    let mut v = Vec::with_capacity(n);
    for i in 0..n {
        v.push(((i * 31 + i / 257) % 251) as u8);
    }
    v
}

#[test]
fn round_trip_hello_world() {
    let (c, rep) = compress_bytes(b"hello world", 6, 8).unwrap();
    assert_eq!(rep.input_bytes, 11);
    assert_eq!(rep.output_bytes, c.len());
    assert_eq!(c[0], 0x1f);
    assert_eq!(c[1], 0x8b);
    let (d, drep) = decompress_bytes(&c, 5).unwrap();
    assert_eq!(d, b"hello world");
    assert_eq!(drep.input_bytes, c.len());
    assert_eq!(drep.output_bytes, 11);
}

#[test]
fn round_trip_empty() {
    let (c, rep) = compress_bytes(&[], 6, 16).unwrap();
    assert_eq!(rep.input_bytes, 0);
    assert_eq!(c[0], 0x1f);
    assert_eq!(c[1], 0x8b);
    // Trailer of an empty payload: CRC32 word 0 and size word 0.
    assert_eq!(&c[c.len() - 8..], &[0u8; 8]);
    let (d, _) = decompress_bytes(&c, 16).unwrap();
    assert!(d.is_empty());
}

#[test]
fn round_trip_one_byte() {
    let (c, _) = compress_bytes(&[0x42], 9, 1).unwrap();
    let (d, _) = decompress_bytes(&c, 1).unwrap();
    assert_eq!(d, vec![0x42]);
}

#[test]
fn round_trip_large_multi_chunk() {
    let input = patterned(200_000);
    let (c, rep) = compress_bytes(&input, 6, 8192).unwrap();
    assert_eq!(rep.input_bytes, 200_000);
    let (d, drep) = decompress_bytes(&c, 1000).unwrap();
    assert_eq!(d, input);
    assert_eq!(drep.output_bytes, 200_000);
}

#[test]
fn round_trip_all_levels() {
    let input = patterned(5000);
    for level in 0..=9u8 {
        let (c, _) = compress_bytes(&input, level, 512).unwrap();
        let (d, _) = decompress_bytes(&c, 512).unwrap();
        assert_eq!(d, input, "level {} did not round-trip", level);
    }
}

#[test]
fn chunk_capacity_independence() {
    let input = patterned(10_000);
    let (reference, _) = compress_bytes(&input, 6, 10_000).unwrap();
    for cap in [1usize, 3, 7, 64, 1024, 100_000] {
        let (c, _) = compress_bytes(&input, 6, cap).unwrap();
        assert_eq!(c, reference, "chunk capacity {} changed the stream", cap);
        let (d, _) = decompress_bytes(&c, cap).unwrap();
        assert_eq!(d, input);
    }
}

#[test]
fn compress_rejects_bad_level_before_any_work() {
    assert_eq!(
        compress_bytes(b"data", 10, 8).unwrap_err(),
        CodecError::InvalidLevel
    );
    assert_eq!(
        run(b"data", Mode::Compress, 200, 8).unwrap_err(),
        CodecError::InvalidLevel
    );
}

#[test]
fn run_dispatches_both_modes() {
    let input = patterned(777);
    let (c, rep) = run(&input, Mode::Compress, 6, 256).unwrap();
    assert_eq!(rep.input_bytes, 777);
    let (d, drep) = run(&c, Mode::Decompress, 0, 256).unwrap();
    assert_eq!(d, input);
    assert_eq!(drep.output_bytes, 777);
}
