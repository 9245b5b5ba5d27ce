use sparseio::error::Reason;
use sparseio::metadata::spec::FORMAT_VERSION;
use sparseio::metadata::{checksum, validate_spec, ChunkRecord, MetadataSpec};

fn record(chunk_index: usize) -> ChunkRecord {
    ChunkRecord { chunk_index, sha256: [0u8; 32] }
}

fn spec(content_len: usize, chunk_size: usize, indices: &[usize]) -> MetadataSpec {
    MetadataSpec {
        version: FORMAT_VERSION,
        source_identity: "test://object".to_string(),
        content_len,
        chunk_size,
        chunks: indices.iter().map(|&i| record(i)).collect(),
    }
}

#[test]
fn validate_spec_accepts_sorted_in_range_chunks() {
    assert!(validate_spec(&spec(40, 16, &[0, 1, 2])).is_ok());
    assert!(validate_spec(&spec(40, 16, &[2])).is_ok());
    assert!(validate_spec(&spec(0, 16, &[])).is_ok());
}

#[test]
fn validate_spec_rejects_bad_chunk_sizes() {
    assert_eq!(validate_spec(&spec(40, 0, &[])).unwrap_err().reason, Reason::ChunkSizeZero);
    assert_eq!(
        validate_spec(&spec(40, 1024 * 1024 * 1024 + 1, &[])).unwrap_err().reason,
        Reason::ChunkSizeTooLarge
    );
}

#[test]
fn validate_spec_rejects_too_many_chunks() {
    assert_eq!(validate_spec(&spec(40, 16, &[0, 1, 2, 3])).unwrap_err().reason, Reason::ChunkCountExceedsLength);
}

#[test]
fn validate_spec_rejects_out_of_range_and_unsorted_chunks() {
    assert_eq!(validate_spec(&spec(40, 16, &[0, 3])).unwrap_err().reason, Reason::ChunkIndexAtEof);
    assert_eq!(validate_spec(&spec(40, 16, &[1, 0])).unwrap_err().reason, Reason::ChunksUnsorted);
    assert_eq!(validate_spec(&spec(40, 16, &[1, 1])).unwrap_err().reason, Reason::ChunksUnsorted);
    // The first failing record decides the error.
    assert_eq!(validate_spec(&spec(40, 16, &[2, 5])).unwrap_err().reason, Reason::ChunkIndexAtEof);
}

#[test]
fn checksum_is_sha256() {
    let digest = checksum(b"abc");
    let expected: [u8; 32] = [
        0xba, 0x78, 0x16, 0xbf, 0x8f, 0x01, 0xcf, 0xea, 0x41, 0x41, 0x40, 0xde, 0x5d, 0xae, 0x22, 0x23, 0xb0, 0x03,
        0x61, 0xa3, 0x96, 0x17, 0x7a, 0x9c, 0xb4, 0x10, 0xff, 0x61, 0xf2, 0x00, 0x15, 0xad,
    ];
    assert_eq!(digest, expected);
}

#[test]
fn dropping_records_keeps_a_valid_spec_valid() {
    let full = spec(80, 16, &[0, 1, 2, 3, 4]);
    assert!(validate_spec(&full).is_ok());
    for mask in 0u32..32 {
        let kept: Vec<usize> = (0..5).filter(|i| mask & (1 << i) != 0).collect();
        assert!(validate_spec(&spec(80, 16, &kept)).is_ok(), "keeping {kept:?} should stay valid");
    }
}
