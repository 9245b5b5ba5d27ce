use sparseio::common::chunks::{
    chunk_count_for_len, chunk_index, chunk_offset, expected_chunk_len, expected_chunk_len_for_index,
    MAX_CHUNK_SIZE,
};
use sparseio::error::{ErrorKind, Reason};

#[test]
fn final_chunk_length_is_derived_from_index() {
    assert_eq!(expected_chunk_len_for_index(16, 20, 1).expect("final chunk length should derive"), 4);
}

#[test]
fn chunk_offset_multiplies_index_by_size() {
    assert_eq!(chunk_offset(16, 3).unwrap(), 48);
    assert_eq!(chunk_offset(0, 7).unwrap(), 0);
}

#[test]
fn chunk_offset_rejects_overflow() {
    let err = chunk_offset(usize::MAX, 2).unwrap_err();
    assert_eq!(err.kind, ErrorKind::InvalidData);
    assert_eq!(err.reason, Reason::ChunkOffsetOverflow);
    assert_eq!(err.message(), "metadata chunk offset exceeds usize");
}

#[test]
fn chunk_index_divides_aligned_offsets() {
    assert_eq!(chunk_index(48, 16).unwrap(), 3);
    assert_eq!(chunk_index(0, 16).unwrap(), 0);
}

#[test]
fn chunk_index_rejects_unaligned_offsets() {
    let err = chunk_index(50, 16).unwrap_err();
    assert_eq!(err.reason, Reason::ChunkOffsetUnaligned);
    assert_eq!(chunk_index(5, 0).unwrap_err().reason, Reason::ChunkOffsetUnaligned);
}

#[test]
fn expected_chunk_len_handles_full_and_tail_chunks() {
    assert_eq!(expected_chunk_len(16, 40, 0).unwrap(), 16);
    assert_eq!(expected_chunk_len(16, 40, 32).unwrap(), 8);
    assert_eq!(expected_chunk_len(16, 40, 40).unwrap_err().reason, Reason::ChunkOffsetAtEof);
}

#[test]
fn expected_chunk_len_for_index_reports_eof_and_overflow() {
    assert_eq!(expected_chunk_len_for_index(16, 20, 2).unwrap_err().reason, Reason::ChunkOffsetAtEof);
    assert_eq!(expected_chunk_len_for_index(usize::MAX, 20, 2).unwrap_err().reason, Reason::ChunkOffsetOverflow);
}

#[test]
fn chunk_count_rounds_up() {
    assert_eq!(chunk_count_for_len(16, 0), 0);
    assert_eq!(chunk_count_for_len(16, 16), 1);
    assert_eq!(chunk_count_for_len(16, 17), 2);
    assert_eq!(chunk_count_for_len(16, 20), 2);
    assert_eq!(chunk_count_for_len(usize::MAX, usize::MAX), 1);
    assert_eq!(MAX_CHUNK_SIZE, 1024 * 1024 * 1024);
}

#[test]
fn chunk_index_inverts_chunk_offset() {
    for index in [0usize, 1, 7, 1000] {
        let offset = chunk_offset(4096, index).unwrap();
        assert_eq!(chunk_index(offset, 4096).unwrap(), index);
    }
}

#[test]
fn every_chunk_below_the_count_is_non_empty() {
    let (chunk_size, len) = (16, 40);
    let count = chunk_count_for_len(chunk_size, len);
    for index in 0..count {
        let chunk_len = expected_chunk_len_for_index(chunk_size, len, index).unwrap();
        assert!(chunk_len > 0 && chunk_len <= chunk_size);
    }
    assert!(expected_chunk_len_for_index(chunk_size, len, count).is_err());
}

#[test]
fn chunk_lengths_add_up_to_the_object() {
    for (chunk_size, len) in [(16usize, 40usize), (16, 32), (7, 1), (5, 0), (1, 9)] {
        let count = chunk_count_for_len(chunk_size, len);
        let total: usize = (0..count)
            .map(|index| expected_chunk_len_for_index(chunk_size, len, index).expect("chunk lies inside"))
            .sum();
        assert_eq!(total, len);
        assert!(expected_chunk_len_for_index(chunk_size, len, count).is_err());
    }
}
