use sparseio::common::codec::ensure_fully_consumed;
use sparseio::common::window::{copy_into, read_from_bytes, window};
use sparseio::error::{Error, ErrorKind, Reason};
use sparseio::utils::fixture::{bytes, chunk_offsets};
use sparseio::utils::memory::{ExtentMap, MemoryStore};

#[test]
fn memory_store_reads_back_last_write() {
    let mut store = MemoryStore::new();
    assert_eq!(store.get_cache("key"), None);
    store.set_cache("key", b"first");
    store.set_cache("key", b"second");
    assert_eq!(store.get_cache("key"), Some(b"second".to_vec()));
    store.delete_cache("key");
    assert_eq!(store.get_cache("key"), None);
    store.delete_cache("missing");
}

#[test]
fn extent_map_reads_missing_extents_as_empty() {
    let mut extents = ExtentMap::new();
    assert!(extents.read_extent(0).is_empty());
    extents.create_extent(8, b"first-write".to_vec());
    extents.create_extent(8, b"second".to_vec());
    assert_eq!(extents.read_extent(8), b"second".to_vec());
    extents.delete_extent(8);
    assert!(extents.read_extent(8).is_empty());
}

#[test]
fn source_reads_copy_exact_bytes_and_stop_at_eof() {
    let data = b"hello world";
    let mut buffer = [0xAAu8; 4];
    assert_eq!(read_from_bytes(data, 6, &mut buffer), 4);
    assert_eq!(&buffer, b"worl");
    let mut buffer = [0xAAu8; 8];
    assert_eq!(read_from_bytes(data, 8, &mut buffer), 3);
    assert_eq!(&buffer[..3], b"rld");
    assert_eq!(buffer[3], 0xAA);
    assert_eq!(read_from_bytes(data, 11, &mut buffer), 0);
    assert_eq!(read_from_bytes(data, 100, &mut buffer), 0);
}

#[test]
fn copy_into_fills_from_position() {
    let mut buffer = [0u8; 5];
    assert_eq!(copy_into(&mut buffer, 2, b"abcdef"), 3);
    assert_eq!(&buffer, &[0, 0, b'a', b'b', b'c']);
}

#[test]
fn windows_must_lie_within_the_source() {
    assert_eq!(window(11, 6, 5).unwrap(), (6, 11));
    assert_eq!(window(5, 5, 0).unwrap(), (5, 5));
    let err = window(5, 4, 2).unwrap_err();
    assert_eq!(err.kind, ErrorKind::UnexpectedEof);
    assert_eq!(window(5, usize::MAX, 2).unwrap_err().reason, Reason::ReaderRangeOverflow);
}

#[test]
fn fixtures_are_deterministic() {
    let data = bytes(300);
    assert_eq!(data.len(), 300);
    assert_eq!(data[0], 0);
    assert_eq!(data[250], 250);
    assert_eq!(data[251], 0);
    assert_eq!(chunk_offsets(40, 16), vec![0, 16, 32]);
    assert_eq!(chunk_offsets(32, 16), vec![0, 16]);
    assert_eq!(chunk_offsets(3, 0), vec![0, 1, 2]);
    assert!(chunk_offsets(0, 16).is_empty());
}

#[test]
fn decoding_must_consume_every_byte() {
    assert!(ensure_fully_consumed(4, 4).is_ok());
    let err = ensure_fully_consumed(3, 4).unwrap_err();
    assert_eq!(err.message(), "metadata value has trailing bytes");
    assert!(matches!(Error::from(err), Error::Io(_)));
}

#[test]
fn errors_describe_themselves() {
    let io = Error::from(sparseio::error::IoError { kind: ErrorKind::InvalidData, reason: Reason::TrailingBytes });
    assert_eq!(io.message(), "I/O error: metadata value has trailing bytes");
    assert_eq!(Error::OOB.message(), "Out-of-bounds read");
    assert_eq!(Error::Other("custom".to_string()).message(), "custom");
}
