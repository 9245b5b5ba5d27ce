use std::io;

use sparseio::ReaderRegistry;

struct StubReader;

struct LenReader(usize);

impl LenReader {
    fn len(&self) -> io::Result<usize> {
        Ok(self.0)
    }
}

#[test]
fn new_starts_empty() {
    let registry: ReaderRegistry<StubReader> = ReaderRegistry::new();

    assert!(registry.get("missing").is_none());
}

#[test]
fn default_starts_empty() {
    let registry: ReaderRegistry<StubReader> = ReaderRegistry::default();

    assert!(registry.get("missing").is_none());
}

#[test]
fn register_makes_reader_retrievable_by_name() {
    let mut registry = ReaderRegistry::new();

    registry.register("stub", StubReader);

    assert!(registry.get("stub").is_some());
    assert!(registry.get("other").is_none());
}

#[test]
fn register_replaces_existing_reader_for_name() {
    let mut registry = ReaderRegistry::new();

    registry.register("source", LenReader(10));
    registry.register("source", LenReader(20));

    let reader = registry.get("source").expect("replacement reader should be registered");

    assert_eq!(reader.len().expect("len should be readable"), 20);
}
