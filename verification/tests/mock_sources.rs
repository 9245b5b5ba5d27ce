use sparseio::common::window::window;
use sparseio::error::ErrorKind;
use sparseio::utils::memory::MemoryStore;

#[test]
fn read_at_returns_window_into_source_bytes() {
    let data = b"hello world";
    let (start, end) = window(data.len(), 6, 5).expect("range should be readable");
    assert_eq!(&data[start..end], b"world");
    assert_eq!((start, end), (6, 11));
}

#[test]
fn read_at_allows_empty_window_at_end() {
    let data = b"hello";
    let (start, end) = window(data.len(), 5, 0).expect("empty end range should be readable");
    assert!(data[start..end].is_empty());
}

#[test]
fn read_at_rejects_out_of_bounds_window() {
    let data = b"hello";
    let error = window(data.len(), 4, 2).expect_err("range should fail");
    assert_eq!(error.kind, ErrorKind::UnexpectedEof);
}

#[test]
fn set_get_and_delete_value() {
    let mut metadata = MemoryStore::new();
    metadata.set_cache("key", b"metadata");
    assert_eq!(metadata.get_cache("key"), Some(b"metadata".to_vec()));
    metadata.delete_cache("key");
    assert_eq!(metadata.get_cache("key"), None);
}

#[test]
fn mock_metadata_delete_missing_key_succeeds() {
    let mut metadata = MemoryStore::new();
    metadata.delete_cache("missing");
    assert_eq!(metadata.get_cache("missing"), None);
}

#[test]
fn write_read_and_delete_value() {
    let mut writer = MemoryStore::new();
    writer.set_cache("key", b"cached");
    assert_eq!(writer.get_cache("key"), Some(b"cached".to_vec()));
    writer.delete_cache("key");
    assert_eq!(writer.get_cache("key"), None);
}

#[test]
fn mock_writer_delete_missing_key_succeeds() {
    let mut writer = MemoryStore::new();
    writer.delete_cache("missing");
    assert_eq!(writer.get_cache("missing"), None);
}
