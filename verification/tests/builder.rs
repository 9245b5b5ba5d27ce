use std::sync::Arc;

use sparseio::builder::Builder;
use sparseio::error::{ErrorKind, IoError};
use sparseio::instance::SparseIO;
use sparseio::sparse::DEFAULT_CHUNK_SIZE;
use sparseio::ReaderRegistry;

struct MockWriter;
struct MockMetadata;
struct MockReader;

fn writer() -> MockWriter {
    MockWriter
}

fn metadata() -> MockMetadata {
    MockMetadata
}

fn registry() -> ReaderRegistry<MockReader> {
    let mut registry = ReaderRegistry::new();
    registry.register("stub", MockReader);
    registry
}

type Io = SparseIO<MockWriter, MockMetadata, ReaderRegistry<MockReader>>;

fn assert_invalid_input(result: Result<Io, IoError>, expected_message: &str) {
    let error = match result {
        Ok(_) => panic!("builder should reject missing required input"),
        Err(error) => error,
    };

    assert_eq!(error.kind, ErrorKind::InvalidInput);
    assert_eq!(error.message(), expected_message);
}

#[test]
fn build_requires_writer() {
    let result = Builder::new().metadata(metadata()).registry(registry()).build();

    assert_invalid_input(result, "Writer implementation is required");
}

#[test]
fn build_requires_metadata() {
    let result = Builder::new().writer(writer()).registry(registry()).build();

    assert_invalid_input(result, "Metadata implementation is required");
}

#[test]
fn build_requires_registry() {
    let result = Builder::new().writer(writer()).metadata(metadata()).build();

    assert_invalid_input(result, "ReaderRegistry implementation is required");
}

#[test]
fn build_uses_default_chunk_size() {
    let sparseio: Io = Builder::new()
        .writer(writer())
        .metadata(metadata())
        .registry(registry())
        .build()
        .expect("builder should accept all required inputs");

    assert_eq!(sparseio.chunk_size, DEFAULT_CHUNK_SIZE);
}

#[test]
fn build_uses_configured_chunk_size() {
    let sparseio: Io = Builder::new()
        .writer(writer())
        .metadata(metadata())
        .registry(registry())
        .chunk_size(8192)
        .build()
        .expect("builder should accept custom chunk size");

    assert_eq!(sparseio.chunk_size, 8192);
}

#[test]
fn build_accepts_arc_inputs() {
    let sparseio: SparseIO<Arc<MockWriter>, Arc<MockMetadata>, Arc<ReaderRegistry<MockReader>>> = Builder::new()
        .writer_arc(Arc::new(writer()))
        .metadata_arc(Arc::new(metadata()))
        .registry_arc(Arc::new(registry()))
        .build()
        .expect("builder should accept shared inputs");

    assert_eq!(sparseio.chunk_size, DEFAULT_CHUNK_SIZE);
}

#[test]
fn sparseio_builder_starts_empty() {
    let result = Io::builder().build();
    assert_invalid_input(result, "Writer implementation is required");
}

#[test]
fn build_rejects_chunk_sizes_above_the_maximum() {
    let result = Builder::new()
        .writer(writer())
        .metadata(metadata())
        .registry(registry())
        .chunk_size(sparseio::common::chunks::MAX_CHUNK_SIZE + 1)
        .build();
    assert_invalid_input(result, "builder field chunk_size exceeds maximum");

    let sparseio: Io = Builder::new()
        .writer(writer())
        .metadata(metadata())
        .registry(registry())
        .chunk_size(sparseio::common::chunks::MAX_CHUNK_SIZE)
        .build()
        .expect("the maximum itself is accepted");
    assert_eq!(sparseio.chunk_size, sparseio::common::chunks::MAX_CHUNK_SIZE);
}
