use sparseio::error::{ErrorKind, Reason};
use sparseio::sparse::{Builder, ReadPlan, ReadState, DEFAULT_CHUNK_SIZE};

#[test]
fn reads_past_the_last_chunk_are_eof() {
    let state: ReadState<u8> = ReadState::new(16, 40);
    assert_eq!(state.plan_read(48), ReadPlan::Eof);
    assert_eq!(state.plan_read(40), ReadPlan::Fetch(32));
    assert_eq!(state.len(), 40);
}

#[test]
fn uncovered_chunks_are_fetched_at_their_start() {
    let state: ReadState<u8> = ReadState::new(16, 64);
    assert_eq!(state.normalize_offset(37), 32);
    assert_eq!(state.plan_read(37), ReadPlan::Fetch(32));
}

#[test]
fn recorded_chunks_are_served_from_the_store() {
    let mut state: ReadState<u8> = ReadState::new(16, 64);
    state.record_fetched(16, 16);
    assert_eq!(state.plan_read(20), ReadPlan::Cached(16));
    assert_eq!(state.plan_read(31), ReadPlan::Cached(16));
    assert_eq!(state.plan_read(32), ReadPlan::Fetch(32));
    state.record_fetched(48, 0);
    assert_eq!(state.plan_read(50), ReadPlan::Fetch(48));
}

#[test]
fn concurrent_misses_share_one_flight() {
    let mut state: ReadState<&str> = ReadState::new(16, 64);
    assert!(state.claim_flight(0, "first"));
    assert!(!state.claim_flight(0, "second"));
    assert_eq!(state.flight(0), Some(&"first"));
    assert_eq!(state.flight(16), None);
    state.end_flight(0);
    assert_eq!(state.flight(0), None);
    assert!(state.claim_flight(0, "third"));
    assert_eq!(state.flight(0), Some(&"third"));
}

#[test]
fn builder_requires_reader_writer_and_positive_chunk_size() {
    let err = Builder::<u8, u8>::new().writer(1).into_parts().unwrap_err();
    assert_eq!(err.kind, ErrorKind::InvalidInput);
    assert_eq!(err.message(), "builder missing required field: reader");
    let err = Builder::<u8, u8>::new().reader(1).into_parts().unwrap_err();
    assert_eq!(err.reason, Reason::BuilderMissingWriter);
    let err = Builder::<u8, u8>::new().reader(1).writer(2).chunk_size(0).into_parts().unwrap_err();
    assert_eq!(err.message(), "builder field chunk_size must be greater than zero");
    assert_eq!(Builder::<u8, u8>::new().reader(1).writer(2).into_parts().unwrap(), (1, 2, DEFAULT_CHUNK_SIZE));
    assert_eq!(Builder::<u8, u8>::default().reader(1).writer(2).chunk_size(32).into_parts().unwrap(), (1, 2, 32));
}

#[test]
fn cache_transitions_from_uncached_to_cached_without_extra_upstream_reads() {
    let mut state: ReadState<u8> = ReadState::new(16, 64);
    let mut upstream_reads = 0;
    for _ in 0..2 {
        match state.plan_read(0) {
            ReadPlan::Fetch(offset) => {
                assert!(state.claim_flight(offset, 0));
                upstream_reads += 1;
                state.record_fetched(offset, 16);
                state.end_flight(offset);
            },
            ReadPlan::Cached(offset) => assert_eq!(offset, 0),
            ReadPlan::Eof => panic!("chunk 0 lies inside the object"),
        }
    }
    assert_eq!(upstream_reads, 1, "upstream reader should be used once");
    assert_eq!(state.plan_read(0), ReadPlan::Cached(0));
}

#[test]
fn same_offset_concurrency_dedupe_shares_one_upstream_fetch() {
    let mut state: ReadState<usize> = ReadState::new(32, 128);
    let mut started = 0;
    for reader in 0..8 {
        assert_eq!(state.plan_read(0), ReadPlan::Fetch(0));
        if state.claim_flight(0, reader) {
            started += 1;
        }
        assert_eq!(state.flight(0), Some(&0));
    }
    assert_eq!(started, 1);
}

#[test]
fn builder_rejects_chunk_sizes_above_the_maximum() {
    let max = sparseio::common::chunks::MAX_CHUNK_SIZE;
    let err = Builder::<u8, u8>::new().reader(1).writer(2).chunk_size(max + 1).into_parts().unwrap_err();
    assert_eq!(err.kind, ErrorKind::InvalidInput);
    assert_eq!(err.reason, Reason::BuilderChunkSizeTooLarge);
    assert_eq!(err.message(), "builder field chunk_size exceeds maximum");
    assert_eq!(Builder::<u8, u8>::new().reader(1).writer(2).chunk_size(max).into_parts().unwrap(), (1, 2, max));
}
