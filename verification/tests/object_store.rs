use sparseio::common::window::copy_into;
use sparseio::sources::object_store::{check_operator, Reader};

const OBJECT: &[u8] = b"hello sparseio";

fn memory_operator() -> opendal::Operator {
    opendal::Operator::new(opendal::services::Memory::default()).expect("memory service builds")
}

/// Serves a read the way the object source does: asks for the planned
/// range, then copies what came back into `buffer`.
fn serve(reader: &Reader, offset: usize, buffer: &mut [u8]) -> usize {
    match reader.plan_read(offset, buffer.len()).expect("range should fit") {
        None => 0,
        Some((start, end)) => copy_into(buffer, 0, &OBJECT[start as usize..end as usize]),
    }
}

#[test]
fn opendal_reader_supports_ranged_reads_and_eof() {
    let op = memory_operator();
    assert!(check_operator(&op).is_ok(), "the memory service can stat and read");
    let reader = Reader::from_parts(op, "object.bin", OBJECT.len());
    assert_eq!(reader.len(), 14);

    let mut range = [0xFFu8; 8];
    assert_eq!(serve(&reader, 6, &mut range), 8);
    assert_eq!(&range, b"sparseio");

    let mut tail = [0xAAu8; 8];
    assert_eq!(serve(&reader, 11, &mut tail), 3);
    assert_eq!(&tail[..3], b"eio");
    assert_eq!(&tail[3..], &[0xAA; 5]);

    assert_eq!(serve(&reader, 14, &mut tail), 0);
}

#[test]
fn opendal_reader_normalizes_paths() {
    let reader = Reader::from_parts(memory_operator(), "./nested//object.bin", 12);
    assert_eq!(reader.path(), "nested/object.bin");
    assert_eq!(reader.plan_read(0, 0).expect("empty reads plan nothing"), None, "zero-length reads should be a no-op");
}
