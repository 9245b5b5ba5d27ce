//! The decisions of the sparse read path: where a read is served from,
//! which fetch a reader joins, and how a builder's inputs are checked.

use std::collections::HashMap;

use vstd::prelude::*;

use crate::common::chunks::MAX_CHUNK_SIZE;
use crate::coverage::{is_floor_entry, lemma_floor_entry_unique, lemma_get_after_insert, saturating_end, Coverage};
use crate::error::{ErrorKind, IoError, Reason};

verus! {

/// Default chunk size of a sparse object (128 KiB).
pub const DEFAULT_CHUNK_SIZE: usize = 128 * 1024;

/// Where a chunk read is served from.
#[derive(Clone, Copy, Debug, PartialEq, Eq, Structural)]
pub enum ReadPlan {
    /// The chunk starts at or beyond the end of the object.
    Eof,
    /// The chunk starting at this offset is materialized; read it from the store.
    Cached(usize),
    /// The chunk starting at this offset must be fetched from the source.
    Fetch(usize),
}

/// The start of the chunk that holds `offset`.
pub open spec fn normalized(chunk_size: usize, offset: usize) -> usize {
    (offset - offset % chunk_size) as usize
}

/// Coverage `m` holds a range that starts at or before `at` and ends after it,
/// the range that a floor lookup of `at` finds.
pub open spec fn covers(m: Map<usize, usize>, at: usize) -> bool {
    exists|s: usize, e: usize| #[trigger] is_floor_entry(m, at, Some((s, e))) && at < e
}

/// The plan for a read at `offset` of an object of `len` bytes split into
/// chunks of `chunk_size` bytes, given coverage `m`.
pub open spec fn plan_spec(chunk_size: usize, len: usize, m: Map<usize, usize>, offset: usize) -> ReadPlan {
    let norm = normalized(chunk_size, offset);
    if norm >= len {
        ReadPlan::Eof
    } else if covers(m, norm) {
        ReadPlan::Cached(norm)
    } else {
        ReadPlan::Fetch(norm)
    }
}

/// The state that the read path consults and updates: the object geometry,
/// the materialized coverage, and the in-flight fetches keyed by chunk start.
pub struct ReadState<F> {
    chunk_size: usize,
    len: usize,
    coverage: Coverage,
    flights: HashMap<usize, F>,
}

impl<F> ReadState<F> {
    #[verifier::type_invariant]
    spec fn positive_chunk_size(&self) -> bool {
        self.chunk_size > 0
    }

    /// The chunk size of the object.
    pub closed spec fn spec_chunk_size(&self) -> usize {
        self.chunk_size
    }

    /// The length of the object.
    pub closed spec fn spec_len(&self) -> usize {
        self.len
    }

    /// The materialized ranges, from start to end.
    pub closed spec fn covered(&self) -> Map<usize, usize> {
        self.coverage@
    }

    /// The in-flight fetches, by chunk start.
    pub closed spec fn in_flight(&self) -> Map<usize, F> {
        self.flights@
    }

    /// Creates the state of a fresh object: nothing covered, nothing in flight.
    pub fn new(chunk_size: usize, len: usize) -> (s: Self)
        requires
            chunk_size > 0,
        ensures
            s.spec_chunk_size() == chunk_size,
            s.spec_len() == len,
            s.covered() == Map::<usize, usize>::empty(),
            s.in_flight() == Map::<usize, F>::empty(),
    {
        ReadState { chunk_size, len, coverage: Coverage::new(), flights: HashMap::new() }
    }

    /// The chunk size of the object.
    pub fn chunk_size(&self) -> (n: usize)
        ensures
            n == self.spec_chunk_size(),
            n > 0,
    {
        proof {
            use_type_invariant(self);
        }
        self.chunk_size
    }

    /// The total length of the object.
    pub fn len(&self) -> (n: usize)
        ensures
            n == self.spec_len(),
    {
        self.len
    }

    /// Aligns `offset` down to the start of its chunk.
    pub fn normalize_offset(&self, offset: usize) -> (n: usize)
        ensures
            n == normalized(self.spec_chunk_size(), offset),
            n <= offset,
            n % self.spec_chunk_size() == 0,
            offset - n < self.spec_chunk_size(),
    {
        proof {
            use_type_invariant(self);
            lemma_normalized(self.chunk_size, offset);
        }
        offset - (offset % self.chunk_size)
    }

    /// Decides where a read at `offset` is served from: past the end of the
    /// object, from the store when the chunk is covered, or from the source.
    pub fn plan_read(&self, offset: usize) -> (p: ReadPlan)
        ensures
            p == plan_spec(self.spec_chunk_size(), self.spec_len(), self.covered(), offset),
    {
        let norm = self.normalize_offset(offset);
        if norm >= self.len {
            return ReadPlan::Eof;
        }
        match self.coverage.get(norm) {
            Some((s, end)) => {
                if norm < end {
                    ReadPlan::Cached(norm)
                } else {
                    proof {
                        if covers(self.coverage@, norm) {
                            let (s2, e2) = choose|s2: usize, e2: usize| #[trigger] is_floor_entry(
                                self.coverage@,
                                norm,
                                Some((s2, e2)),
                            ) && norm < e2;
                            lemma_floor_entry_unique(self.coverage@, norm, Some((s, end)), Some((s2, e2)));
                        }
                    }
                    ReadPlan::Fetch(norm)
                }
            },
            None => {
                proof {
                    if covers(self.coverage@, norm) {
                        let (s2, e2) = choose|s2: usize, e2: usize| #[trigger] is_floor_entry(
                            self.coverage@,
                            norm,
                            Some((s2, e2)),
                        ) && norm < e2;
                        lemma_floor_entry_unique(self.coverage@, norm, None, Some((s2, e2)));
                    }
                }
                ReadPlan::Fetch(norm)
            },
        }
    }

    /// Records that `length` bytes starting at `offset` were materialized.
    pub fn record_fetched(&mut self, offset: usize, length: usize)
        ensures
            final(self).covered() == old(self).covered().insert(offset, saturating_end(offset, length)),
            final(self).in_flight() == old(self).in_flight(),
            final(self).spec_chunk_size() == old(self).spec_chunk_size(),
            final(self).spec_len() == old(self).spec_len(),
    {
        proof {
            use_type_invariant(&*self);
        }
        let mut coverage = Coverage::new();
        std::mem::swap(&mut coverage, &mut self.coverage);
        coverage.insert(offset, length);
        self.coverage = coverage;
    }

    /// The fetch in flight for the chunk starting at `offset`, if any.
    pub fn flight(&self, offset: usize) -> (f: Option<&F>)
        ensures
            match f {
                Some(f) => self.in_flight().contains_key(offset) && *f == self.in_flight()[offset],
                None => !self.in_flight().contains_key(offset),
            },
    {
        proof {
            broadcast use vstd::std_specs::hash::group_hash_axioms;
        }
        self.flights.get(&offset)
    }

    /// Registers `fresh` as the fetch for the chunk at `offset` unless one is
    /// already in flight there; returns whether `fresh` was registered.
    pub fn claim_flight(&mut self, offset: usize, fresh: F) -> (started: bool)
        ensures
            (started, final(self).in_flight()) == claim_spec(old(self).in_flight(), offset, fresh),
            final(self).covered() == old(self).covered(),
            final(self).spec_chunk_size() == old(self).spec_chunk_size(),
            final(self).spec_len() == old(self).spec_len(),
    {
        proof {
            use_type_invariant(&*self);
        }
        proof {
            broadcast use vstd::std_specs::hash::group_hash_axioms;
        }
        if self.flights.contains_key(&offset) {
            false
        } else {
            let mut flights = HashMap::new();
            std::mem::swap(&mut flights, &mut self.flights);
            flights.insert(offset, fresh);
            self.flights = flights;
            true
        }
    }

    /// Forgets the fetch in flight for the chunk at `offset`.
    pub fn end_flight(&mut self, offset: usize)
        ensures
            final(self).in_flight() == old(self).in_flight().remove(offset),
            final(self).covered() == old(self).covered(),
            final(self).spec_chunk_size() == old(self).spec_chunk_size(),
            final(self).spec_len() == old(self).spec_len(),
    {
        proof {
            use_type_invariant(&*self);
        }
        proof {
            broadcast use vstd::std_specs::hash::group_hash_axioms;
        }
        let mut flights = HashMap::new();
        std::mem::swap(&mut flights, &mut self.flights);
        flights.remove(&offset);
        self.flights = flights;
    }
}

/// Properties of aligning an offset down to its chunk start.
pub proof fn lemma_normalized(chunk_size: usize, offset: usize)
    requires
        chunk_size > 0,
    ensures
        offset % chunk_size <= offset,
        normalized(chunk_size, offset) <= offset,
        normalized(chunk_size, offset) % chunk_size == 0,
        offset - normalized(chunk_size, offset) < chunk_size,
{
    vstd::arithmetic::div_mod::lemma_fundamental_div_mod(offset as int, chunk_size as int);
    vstd::arithmetic::div_mod::lemma_mod_multiples_basic(offset as int / chunk_size as int, chunk_size as int);
    vstd::arithmetic::mul::lemma_mul_is_commutative(offset as int / chunk_size as int, chunk_size as int);
}

/// Where a read is served from, whatever has been recorded: a read whose
/// chunk starts at or past the end of the object is at the end of the
/// object and never fetched or served from the store; any other read is
/// fetched or served for the start of its own chunk, a multiple of the
/// chunk size at most `offset` and less than a chunk before it. When no
/// recorded range that starts at or before that chunk start reaches past
/// it (in particular when nothing is recorded), the chunk is fetched.
pub proof fn lemma_plan_targets_own_chunk(chunk_size: usize, len: usize, m: Map<usize, usize>, offset: usize)
    requires
        chunk_size > 0,
    ensures
        ({
            let k = (offset - offset % chunk_size) as usize;
            k < len && (forall|s: usize| #[trigger] m.contains_key(s) && s <= k ==> m[s] <= k)
                ==> plan_spec(chunk_size, len, m, offset) == ReadPlan::Fetch(k)
        }),
        offset - offset % chunk_size >= len <==> plan_spec(chunk_size, len, m, offset) == ReadPlan::Eof,
        plan_spec(chunk_size, len, m, offset) matches ReadPlan::Fetch(k) ==> k < len && k % chunk_size == 0
            && k <= offset && offset - k < chunk_size,
        plan_spec(chunk_size, len, m, offset) matches ReadPlan::Cached(k) ==> k < len && k % chunk_size == 0
            && k <= offset && offset - k < chunk_size,
{
    lemma_normalized(chunk_size, offset);
}

/// What claiming `fresh` as the fetch for the chunk at `offset` does to the
/// in-flight fetches `m`: whether `fresh` was registered, and the new fetches.
pub open spec fn claim_spec<F>(m: Map<usize, F>, offset: usize, fresh: F) -> (bool, Map<usize, F>) {
    if m.contains_key(offset) {
        (false, m)
    } else {
        (true, m.insert(offset, fresh))
    }
}

/// Concurrent misses of one chunk share a single fetch: after one claim for
/// a chunk, a second claim for it registers nothing, and the fetch that
/// readers of the chunk join is the one the first claim left there.
pub proof fn lemma_second_claim_joins<F>(m: Map<usize, F>, offset: usize, first: F, second: F)
    ensures
        ({
            let (_, m1) = claim_spec(m, offset, first);
            let (started2, m2) = claim_spec(m1, offset, second);
            &&& !started2
            &&& m2 == m1
            &&& m2.contains_key(offset)
            &&& !m.contains_key(offset) ==> m2[offset] == first
        }),
{
}

/// Once the fetch for a chunk has ended, the next miss of that chunk starts
/// a new fetch.
pub proof fn lemma_ended_flight_restarts<F>(m: Map<usize, F>, offset: usize, fresh: F)
    ensures
        claim_spec(m.remove(offset), offset, fresh) == (true, m.remove(offset).insert(offset, fresh)),
{
}

/// Once a non-empty chunk has been recorded, every read that falls in that
/// chunk is served from the store.
pub proof fn lemma_recorded_chunk_is_cached(
    chunk_size: usize,
    len: usize,
    m: Map<usize, usize>,
    offset: usize,
    length: usize,
)
    requires
        chunk_size > 0,
        normalized(chunk_size, offset) < len,
        length > 0,
    ensures
        plan_spec(
            chunk_size,
            len,
            m.insert(
                normalized(chunk_size, offset),
                saturating_end(normalized(chunk_size, offset), length),
            ),
            offset,
        ) == ReadPlan::Cached(normalized(chunk_size, offset)),
{
    let norm = normalized(chunk_size, offset);
    let end = saturating_end(norm, length);
    lemma_get_after_insert(m, norm, end, norm);
    assert(is_floor_entry(m.insert(norm, end), norm, Some((norm, end))));
}

/// Builder for a sparse object: a source reader, a store writer, and an
/// optional chunk size (default 128 KiB).
pub struct Builder<R, W> {
    chunk_size: usize,
    reader: Option<R>,
    writer: Option<W>,
}

impl<R, W> Default for Builder<R, W> {
    fn default() -> (b: Self)
        ensures
            b.spec_chunk_size() == DEFAULT_CHUNK_SIZE,
            b.spec_reader() is None,
            b.spec_writer() is None,
    {
        Builder { chunk_size: DEFAULT_CHUNK_SIZE, reader: None, writer: None }
    }
}

impl<R, W> Builder<R, W> {
    /// The configured chunk size.
    pub closed spec fn spec_chunk_size(&self) -> usize {
        self.chunk_size
    }

    /// The configured reader.
    pub closed spec fn spec_reader(&self) -> Option<R> {
        self.reader
    }

    /// The configured writer.
    pub closed spec fn spec_writer(&self) -> Option<W> {
        self.writer
    }

    /// A builder with the default chunk size and no reader or writer.
    pub fn new() -> (b: Self)
        ensures
            b.spec_chunk_size() == DEFAULT_CHUNK_SIZE,
            b.spec_reader() is None,
            b.spec_writer() is None,
    {
        Builder { chunk_size: DEFAULT_CHUNK_SIZE, reader: None, writer: None }
    }

    /// Sets the chunk size.
    pub fn chunk_size(self, chunk_size: usize) -> (b: Self)
        ensures
            b.spec_chunk_size() == chunk_size,
            b.spec_reader() == self.spec_reader(),
            b.spec_writer() == self.spec_writer(),
    {
        Builder { chunk_size, reader: self.reader, writer: self.writer }
    }

    /// Sets the source reader, a required field.
    pub fn reader(self, reader: R) -> (b: Self)
        ensures
            b.spec_chunk_size() == self.spec_chunk_size(),
            b.spec_reader() == Some(reader),
            b.spec_writer() == self.spec_writer(),
    {
        Builder { chunk_size: self.chunk_size, reader: Some(reader), writer: self.writer }
    }

    /// Sets the store writer, a required field.
    pub fn writer(self, writer: W) -> (b: Self)
        ensures
            b.spec_chunk_size() == self.spec_chunk_size(),
            b.spec_reader() == self.spec_reader(),
            b.spec_writer() == Some(writer),
    {
        Builder { chunk_size: self.chunk_size, reader: self.reader, writer: Some(writer) }
    }

    /// Checks the configured fields and hands them out: the reader, the
    /// writer and the chunk size. Fails on a missing reader, then on a
    /// missing writer, then on a zero chunk size, then on a chunk size above
    /// [`MAX_CHUNK_SIZE`].
    pub fn into_parts(self) -> (r: Result<(R, W, usize), IoError>)
        ensures
            match r {
                Ok((reader, writer, chunk_size)) => {
                    &&& self.spec_reader() == Some(reader)
                    &&& self.spec_writer() == Some(writer)
                    &&& chunk_size == self.spec_chunk_size()
                    &&& 0 < chunk_size <= MAX_CHUNK_SIZE
                },
                Err(e) => e.kind == ErrorKind::InvalidInput && if self.spec_reader() is None {
                    e.reason == Reason::BuilderMissingReader
                } else if self.spec_writer() is None {
                    e.reason == Reason::BuilderMissingWriter
                } else if self.spec_chunk_size() == 0 {
                    e.reason == Reason::BuilderZeroChunkSize
                } else {
                    self.spec_chunk_size() > MAX_CHUNK_SIZE && e.reason == Reason::BuilderChunkSizeTooLarge
                },
            },
    {
        let reader = match self.reader {
            Some(r) => r,
            None => {
                return Err(IoError { kind: ErrorKind::InvalidInput, reason: Reason::BuilderMissingReader });
            },
        };
        let writer = match self.writer {
            Some(w) => w,
            None => {
                return Err(IoError { kind: ErrorKind::InvalidInput, reason: Reason::BuilderMissingWriter });
            },
        };
        if self.chunk_size == 0 {
            return Err(IoError { kind: ErrorKind::InvalidInput, reason: Reason::BuilderZeroChunkSize });
        }
        if self.chunk_size > MAX_CHUNK_SIZE {
            return Err(IoError { kind: ErrorKind::InvalidInput, reason: Reason::BuilderChunkSizeTooLarge });
        }
        Ok((reader, writer, self.chunk_size))
    }
}

} // verus!
