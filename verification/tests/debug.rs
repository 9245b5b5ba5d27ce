use sparseio::debug::{
    bytes_summary, check_chunk_bytes, check_prefix_bytes, check_eof_read, check_harness_config, check_read_at, check_reader_len,
    check_repeat_read, check_same_bytes, check_stable_reads, check_writer_cache_reuse, eof_offsets,
    expected_range_summary, fixture_summary, make_offsets, reader_buffer_sizes, writer_concurrent_offsets,
    writer_probes, ValidationError,
};

#[test]
fn make_offsets_is_sorted_and_deduplicated() {
    assert_eq!(make_offsets(0, 16), vec![0]);
    assert_eq!(make_offsets(96, 16), vec![0, 1, 15, 16, 95, 96, 112]);
    assert_eq!(make_offsets(1, 16), vec![0, 1, 17]);
    assert_eq!(make_offsets(10, 1), vec![0, 1, 9, 10, 11]);
}

#[test]
fn summaries_show_length_and_leading_bytes() {
    assert_eq!(fixture_summary(&[]), "len=0 []");
    assert_eq!(fixture_summary(&[0x0a, 0xff]), "len=2 [0a ff]");
    assert_eq!(bytes_summary(&[0, 1, 2, 3, 4, 5, 6, 7, 8, 9]), "len=10 [00 01 02 03 04 05 06 07 ...]");
    assert_eq!(expected_range_summary(&[1, 2, 3, 4], 2, 8), "offset=2, len=2 [03 04]");
    assert_eq!(expected_range_summary(&[1, 2, 3, 4], 9, 1), "offset=9, len=0 []");
}

#[test]
fn validation_errors_record_their_inputs() {
    let e = ValidationError::io("reader len", Some(3), 16, "len=4".to_string(), "boom");
    assert_eq!(e.check, "reader len");
    assert_eq!(e.offset, Some(3));
    assert_eq!(e.chunk_size, 16);
    assert_eq!(e.expected, "len=4");
    assert_eq!(e.actual, "error: boom");
}

#[test]
fn reader_checks_flag_each_contract_violation() {
    let fixture = [10u8, 11, 12, 13, 14];
    assert!(check_harness_config("reader harness config", 0).is_err());
    assert!(check_harness_config("reader harness config", 4).is_ok());
    assert!(check_reader_len(&fixture, 4, 5, 5, 5).is_ok());
    assert_eq!(check_reader_len(&fixture, 4, 4, 4, 4).unwrap_err().actual, "len=4");
    let e = check_reader_len(&fixture, 4, 5, 5, 6).unwrap_err();
    assert_eq!((e.check, e.actual.as_str()), ("reader len repeatability", "len2=5, len3=6"));
    assert!(check_read_at(&fixture, 4, 3, 2, &[13, 14, 0, 0]).is_ok());
    let e = check_read_at(&fixture, 4, 3, 1, &[13, 14, 0, 0]).unwrap_err();
    assert_eq!((e.expected.as_str(), e.actual.as_str()), ("expected_read=2", "actual_read=1"));
    let e = check_read_at(&fixture, 4, 3, 2, &[13, 15, 0, 0]).unwrap_err();
    assert_eq!(e.check, "reader read_at bytes");
    assert_eq!(e.expected, "offset=3, len=2 [0d 0e]");
    assert!(check_repeat_read(4, 0, 2, &[1, 2], 2, &[1, 2]).is_ok());
    assert!(check_repeat_read(4, 0, 2, &[1, 2], 1, &[1, 2]).is_err());
    assert!(check_eof_read(4, 5, 0).is_ok());
    assert_eq!(check_eof_read(4, 5, 2).unwrap_err().actual, "read=2");
    assert_eq!(reader_buffer_sizes(0), vec![1, 1, 3]);
    assert_eq!(reader_buffer_sizes(usize::MAX), vec![1, usize::MAX, usize::MAX]);
    assert_eq!(eof_offsets(5, 4), vec![5, 6, 9]);
}

#[test]
fn chunk_and_writer_checks() {
    let fixture = [0u8, 1, 2, 3, 4, 5, 6, 7, 8, 9];
    assert!(check_chunk_bytes("reader sparse unaligned bytes", &fixture, 4, 5, &[4, 5, 6, 7]).is_ok());
    assert!(check_chunk_bytes("x", &fixture, 4, 9, &[8, 9]).is_ok());
    let e = check_chunk_bytes("x", &fixture, 4, 5, &[4, 6]).unwrap_err();
    assert_eq!(e.expected, "offset=4, len=2 [04 05]");
    assert!(check_same_bytes("x", None, 4, &[1], &[1]).is_ok());
    assert!(check_same_bytes("x", None, 4, &[1], &[2]).is_err());
    let e = check_stable_reads(4, 8, b"ab", b"ab", b"ac").unwrap_err();
    assert_eq!(e.actual, "len=2 [61 62], len=2 [61 63]");
    let e = check_writer_cache_reuse(4, 1, 2, 1, 2).unwrap_err();
    assert_eq!((e.expected.as_str(), e.actual.as_str()), ("create_calls=1, read_calls>2", "create_calls=1, read_calls=2"));
    assert!(check_writer_cache_reuse(4, 1, 2, 1, 3).is_ok());
    let p = writer_probes(10, 4).unwrap();
    assert_eq!((p.first_len, p.disjoint_offset, p.disjoint_len, p.tail_offset), (4, 8, 4, 7));
    let p = writer_probes(0, 4).unwrap();
    assert_eq!((p.first_len, p.disjoint_len, p.tail_offset), (0, 1, 0));
    let e = writer_probes(10, usize::MAX / 2 + 1).unwrap_err();
    assert_eq!(e.check, "writer harness config");
    assert_eq!(e.expected, "chunk_size * 2 <= usize::MAX");
    assert_eq!(writer_concurrent_offsets(10, 4), vec![0, 4]);
    assert_eq!(writer_concurrent_offsets(3, 16), vec![0, 2]);
}

#[test]
fn failures_describe_themselves_in_one_line() {
    let at = ValidationError::new("reader eof behavior", Some(96), 16, "read=0 at eof".to_string(), "read=4".to_string());
    assert_eq!(at.describe(), "reader eof behavior failed at offset 96 [chunk_size=16, expected=read=0 at eof, actual=read=4]");
    let nowhere = ValidationError::io("reader len", None, 16, "len=96".to_string(), "boom");
    assert_eq!(nowhere.describe(), "reader len failed [chunk_size=16, expected=len=96, actual=error: boom]");
}

#[test]
fn overlong_reads_and_chunks_fail_their_checks() {
    let e = check_repeat_read(4, 2, 2, b"ab", 5, b"abcd").unwrap_err();
    assert_eq!(e.check, "reader read_at repeatability");
    assert_eq!(e.actual, "read=5");
    let e = check_prefix_bytes("reader sparse read_chunk bytes", b"abc", 4, b"abcd", 4).unwrap_err();
    assert_eq!(e.check, "reader sparse read_chunk bytes");
    assert_eq!(e.actual, "len=4 [61 62 63 64]");
    assert!(check_prefix_bytes("reader sparse read_chunk bytes", b"abc", 4, b"ab", 4).is_ok());
}
