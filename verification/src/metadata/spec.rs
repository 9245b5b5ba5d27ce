//! The encoded metadata format and the rules a decoded record must obey.

use vstd::prelude::*;

use crate::common::chunks::{chunk_count_for_len, chunk_count_spec, MAX_CHUNK_SIZE};
use crate::error::{invalid_data, invalid_data_error, IoError, Reason};

verus! {

/// Current version of the metadata format; incremented on breaking changes.
pub const FORMAT_VERSION: u16 = 1;

/// One cached chunk of an object: its index and the SHA-256 of its bytes.
#[derive(Clone, Copy, Debug, PartialEq, Eq)]
pub struct ChunkRecord {
    pub chunk_index: usize,
    pub sha256: [u8; 32],
}

/// The metadata recorded for a cached object.
///
/// The record is not portable across systems with different `usize` widths.
#[derive(Clone, Debug, PartialEq, Eq)]
pub struct MetadataSpec {
    pub version: u16,
    pub source_identity: String,
    pub content_len: usize,
    pub chunk_size: usize,
    pub chunks: Vec<ChunkRecord>,
}

/// The SHA-256 digest of `data`.
pub uninterp spec fn sha256_digest(data: Seq<u8>) -> Seq<u8>;

/// Computes the SHA-256 checksum of `data` (`sha2::Sha256::digest`).
///
/// Trusted: the digest is the named value `sha256_digest` of the input bytes.
#[verifier::external_body]
pub fn checksum(data: &[u8]) -> (digest: [u8; 32])
    ensures
        digest@ == sha256_digest(data@),
{
    <sha2::Sha256 as sha2::Digest>::digest(data).into()
}

/// The failure, if any, of the chunk record at position `i` of `chunks`:
/// its index must lie before the end of the object and exceed the index of
/// the record before it.
pub open spec fn record_fault(chunk_size: usize, content_len: usize, chunks: Seq<ChunkRecord>, i: int) -> Option<Reason> {
    if chunks[i].chunk_index >= chunk_count_spec(chunk_size as int, content_len as int) {
        Some(Reason::ChunkIndexAtEof)
    } else if i > 0 && chunks[i].chunk_index <= chunks[i - 1].chunk_index {
        Some(Reason::ChunksUnsorted)
    } else {
        None
    }
}

/// The outcome of checking the first `n` records in order: the fault of the
/// first record that fails, or `Ok` when none does.
pub open spec fn records_outcome(chunk_size: usize, content_len: usize, chunks: Seq<ChunkRecord>, n: nat) -> Result<(), IoError>
    decreases n,
{
    if n == 0 {
        Ok(())
    } else {
        match records_outcome(chunk_size, content_len, chunks, (n - 1) as nat) {
            Err(e) => Err(e),
            Ok(()) => match record_fault(chunk_size, content_len, chunks, n - 1) {
                Some(reason) => Err(invalid_data_error(reason)),
                None => Ok(()),
            },
        }
    }
}

/// The outcome of validating a metadata record, check by check in order.
pub open spec fn validation_outcome(spec: MetadataSpec) -> Result<(), IoError> {
    if spec.chunk_size == 0 {
        Err(invalid_data_error(Reason::ChunkSizeZero))
    } else if spec.chunk_size > MAX_CHUNK_SIZE {
        Err(invalid_data_error(Reason::ChunkSizeTooLarge))
    } else if spec.chunks@.len() > chunk_count_spec(spec.chunk_size as int, spec.content_len as int) {
        Err(invalid_data_error(Reason::ChunkCountExceedsLength))
    } else {
        records_outcome(spec.chunk_size, spec.content_len, spec.chunks@, spec.chunks@.len())
    }
}

/// A well-formed metadata record: a chunk size in `1..=MAX_CHUNK_SIZE`, and
/// chunk indices that all lie before the end of the object and strictly
/// increase.
pub open spec fn well_formed_spec(spec: MetadataSpec) -> bool {
    let count = chunk_count_spec(spec.chunk_size as int, spec.content_len as int);
    &&& 0 < spec.chunk_size <= MAX_CHUNK_SIZE
    &&& spec.chunks@.len() <= count
    &&& forall|i: int| 0 <= i < spec.chunks@.len() ==> #[trigger] spec.chunks@[i].chunk_index < count
    &&& forall|i: int, j: int|
        0 <= i < j < spec.chunks@.len() ==> #[trigger] spec.chunks@[i].chunk_index
            < #[trigger] spec.chunks@[j].chunk_index
}

/// Checking a prefix succeeds exactly when its indices lie before the end of
/// the object and strictly increase.
proof fn lemma_records_outcome_ok(chunk_size: usize, content_len: usize, chunks: Seq<ChunkRecord>, n: nat)
    requires
        n <= chunks.len(),
    ensures
        records_outcome(chunk_size, content_len, chunks, n) is Ok <==> {
            &&& forall|i: int| 0 <= i < n ==> #[trigger] chunks[i].chunk_index < chunk_count_spec(
                chunk_size as int,
                content_len as int,
            )
            &&& forall|i: int, j: int|
                0 <= i < j < n ==> #[trigger] chunks[i].chunk_index < #[trigger] chunks[j].chunk_index
        },
    decreases n,
{
    if n > 0 {
        lemma_records_outcome_ok(chunk_size, content_len, chunks, (n - 1) as nat);
        if records_outcome(chunk_size, content_len, chunks, n) is Ok {
            assert(forall|i: int, j: int| 0 <= i < j < n ==> #[trigger] chunks[i].chunk_index
                < #[trigger] chunks[j].chunk_index);
        }
    }
}

/// Once a record fails, checking any longer prefix fails the same way.
proof fn lemma_records_outcome_sticky(chunk_size: usize, content_len: usize, chunks: Seq<ChunkRecord>, n: nat, m: nat)
    requires
        n <= m,
        records_outcome(chunk_size, content_len, chunks, n) is Err,
    ensures
        records_outcome(chunk_size, content_len, chunks, m) == records_outcome(
            chunk_size,
            content_len,
            chunks,
            n,
        ),
    decreases m - n,
{
    if m > n {
        lemma_records_outcome_sticky(chunk_size, content_len, chunks, n, (m - 1) as nat);
    }
}

/// In records whose indices strictly increase, the record at position `k`
/// has an index of at least `k`.
proof fn lemma_increasing_index_bound(chunks: Seq<ChunkRecord>, k: int)
    requires
        0 <= k < chunks.len(),
        forall|i: int, j: int|
            0 <= i < j < chunks.len() ==> #[trigger] chunks[i].chunk_index < #[trigger] chunks[j].chunk_index,
    ensures
        chunks[k].chunk_index >= k,
    decreases k,
{
    if k > 0 {
        lemma_increasing_index_bound(chunks, k - 1);
        assert(chunks[k - 1].chunk_index < chunks[k].chunk_index);
    }
}

/// Dropping chunk records keeps a valid record valid: when `kept` has the
/// chunk size and length of `spec` and its chunks are those of `spec` at the
/// strictly increasing positions `positions`, `kept` validates whenever
/// `spec` does.
pub proof fn lemma_dropping_records_keeps_validity(spec: MetadataSpec, kept: MetadataSpec, positions: Seq<int>)
    requires
        well_formed_spec(spec),
        kept.chunk_size == spec.chunk_size,
        kept.content_len == spec.content_len,
        positions.len() == kept.chunks@.len(),
        forall|k: int|
            0 <= k < positions.len() ==> 0 <= #[trigger] positions[k] < spec.chunks@.len()
                && kept.chunks@[k] == spec.chunks@[positions[k]],
        forall|k: int, l: int| 0 <= k < l < positions.len() ==> #[trigger] positions[k] < #[trigger] positions[l],
    ensures
        well_formed_spec(kept),
{
    let count = chunk_count_spec(kept.chunk_size as int, kept.content_len as int);
    let c = kept.chunks@;
    assert forall|i: int| 0 <= i < c.len() implies #[trigger] c[i].chunk_index < count by {
        assert(spec.chunks@[positions[i]].chunk_index < count);
    }
    assert forall|i: int, j: int| 0 <= i < j < c.len() implies #[trigger] c[i].chunk_index
        < #[trigger] c[j].chunk_index by {
        assert(positions[i] < positions[j]);
        assert(spec.chunks@[positions[i]].chunk_index < spec.chunks@[positions[j]].chunk_index);
    }
    if c.len() > 0 {
        lemma_increasing_index_bound(c, c.len() - 1);
        assert(c[c.len() - 1].chunk_index < count);
    }
}

/// Validates that the chunk size is greater than zero and at most the maximum.
fn validate_chunk_size(chunk_size: usize) -> (r: Result<(), IoError>)
    ensures
        r == (if chunk_size == 0 {
            Err(invalid_data_error(Reason::ChunkSizeZero))
        } else if chunk_size > MAX_CHUNK_SIZE {
            Err(invalid_data_error(Reason::ChunkSizeTooLarge))
        } else {
            Ok::<(), IoError>(())
        }),
{
    if chunk_size == 0 {
        return Err(invalid_data(Reason::ChunkSizeZero));
    }
    if chunk_size > MAX_CHUNK_SIZE {
        return Err(invalid_data(Reason::ChunkSizeTooLarge));
    }
    Ok(())
}

/// Validates that the record lists no more chunks than the object has.
fn validate_chunk_count(chunk_size: usize, object_len: usize, chunk_count: usize) -> (r: Result<
    (),
    IoError,
>)
    requires
        chunk_size > 0,
    ensures
        r == (if chunk_count > chunk_count_spec(chunk_size as int, object_len as int) {
            Err(invalid_data_error(Reason::ChunkCountExceedsLength))
        } else {
            Ok::<(), IoError>(())
        }),
{
    let max_chunks = chunk_count_for_len(chunk_size, object_len);
    if chunk_count > max_chunks {
        return Err(invalid_data(Reason::ChunkCountExceedsLength));
    }
    Ok(())
}

/// Validates that a chunk record's index lies before the end of the object.
fn validate_chunk_record(chunk_size: usize, object_len: usize, chunk: &ChunkRecord) -> (r: Result<
    (),
    IoError,
>)
    requires
        chunk_size > 0,
    ensures
        r == (if chunk.chunk_index >= chunk_count_spec(chunk_size as int, object_len as int) {
            Err(invalid_data_error(Reason::ChunkIndexAtEof))
        } else {
            Ok::<(), IoError>(())
        }),
{
    let max_chunks = chunk_count_for_len(chunk_size, object_len);
    if chunk.chunk_index >= max_chunks {
        return Err(invalid_data(Reason::ChunkIndexAtEof));
    }
    Ok(())
}

/// Validates a decoded metadata record.
///
/// Checks, in order, the chunk size, the number of chunks, and then each
/// chunk record (its index lies before the end of the object and exceeds
/// the previous one), failing with the first violation found.
pub fn validate_spec(spec: &MetadataSpec) -> (r: Result<(), IoError>)
    ensures
        r == validation_outcome(*spec),
        r is Ok <==> well_formed_spec(*spec),
{
    proof {
        lemma_records_outcome_ok(spec.chunk_size, spec.content_len, spec.chunks@, spec.chunks@.len());
    }
    validate_chunk_size(spec.chunk_size)?;
    validate_chunk_count(spec.chunk_size, spec.content_len, spec.chunks.len())?;

    let mut last: Option<usize> = None;
    let mut i: usize = 0;
    while i < spec.chunks.len()
        invariant
            0 < spec.chunk_size <= MAX_CHUNK_SIZE,
            spec.chunks@.len() <= chunk_count_spec(spec.chunk_size as int, spec.content_len as int),
            i <= spec.chunks@.len(),
            records_outcome(spec.chunk_size, spec.content_len, spec.chunks@, i as nat) is Ok,
            last == (if i == 0 {
                None::<usize>
            } else {
                Some(spec.chunks@[i - 1].chunk_index)
            }),
        decreases spec.chunks@.len() - i,
    {
        let chunk = &spec.chunks[i];
        let checked = validate_chunk_record(spec.chunk_size, spec.content_len, chunk);
        if checked.is_err() {
            proof {
                lemma_records_outcome_sticky(
                    spec.chunk_size,
                    spec.content_len,
                    spec.chunks@,
                    (i + 1) as nat,
                    spec.chunks@.len(),
                );
            }
            return checked;
        }
        match last {
            Some(prev) => {
                if chunk.chunk_index <= prev {
                    proof {
                        lemma_records_outcome_sticky(
                            spec.chunk_size,
                            spec.content_len,
                            spec.chunks@,
                            (i + 1) as nat,
                            spec.chunks@.len(),
                        );
                    }
                    return Err(invalid_data(Reason::ChunksUnsorted));
                }
            },
            None => {},
        }
        last = Some(chunk.chunk_index);
        i = i + 1;
    }
    Ok(())
}

} // verus!
