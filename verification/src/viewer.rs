//! Read interface for a single object: how an offset-based read maps onto
//! the object's chunks.

use vstd::prelude::*;

use crate::error::Error;
use crate::sparse::{lemma_normalized, normalized};

verus! {

/// The part of one chunk that a read covers: the chunk's start, how many of
/// its bytes to skip, and how many to take.
#[derive(Clone, Copy, Debug, PartialEq, Eq, Structural)]
pub struct Span {
    pub chunk: usize,
    pub skip: usize,
    pub take: usize,
}

/// The spans `spans` cover `offset..offset + length` in order, each within
/// one chunk of `chunk_size` bytes and starting at its chunk boundary or
/// where the previous span ended.
pub open spec fn tiles(spans: Seq<Span>, chunk_size: usize, offset: int, length: int) -> bool {
    &&& forall|i: int|
        0 <= i < spans.len() ==> {
            &&& #[trigger] spans[i].chunk % chunk_size == 0
            &&& spans[i].take > 0
            &&& spans[i].skip + spans[i].take <= chunk_size
        }
    &&& spans.len() == 0 <==> length == 0
    &&& spans.len() > 0 ==> spans[0].chunk + spans[0].skip == offset
    &&& forall|i: int|
        0 <= i < spans.len() - 1 ==> #[trigger] spans[i + 1].chunk + spans[i + 1].skip
            == spans[i].chunk + spans[i].skip + spans[i].take
    &&& spans.len() > 0 ==> spans.last().chunk + spans.last().skip + spans.last().take == offset
        + length
}

/// Read interface for a single object mediated by the library: the object's
/// length and chunk size.
pub struct Viewer {
    len: usize,
    chunk_size: usize,
}

impl Viewer {
    #[verifier::type_invariant]
    spec fn positive_chunk_size(&self) -> bool {
        self.chunk_size > 0
    }

    /// The length of the object.
    pub closed spec fn spec_len(&self) -> usize {
        self.len
    }

    /// The chunk size of the object.
    pub closed spec fn spec_chunk_size(&self) -> usize {
        self.chunk_size
    }

    /// A viewer of an object of `len` bytes split into chunks of
    /// `chunk_size` bytes.
    pub fn new(len: usize, chunk_size: usize) -> (v: Self)
        requires
            chunk_size > 0,
        ensures
            v.spec_len() == len,
            v.spec_chunk_size() == chunk_size,
    {
        Viewer { len, chunk_size }
    }

    /// The total length of the object.
    pub fn len(&self) -> (r: Result<usize, Error>)
        ensures
            r matches Ok(n) && n == self.spec_len(),
    {
        Ok(self.len)
    }

    /// The chunk spans that a read of `length` bytes at `offset` covers;
    /// fails with `OOB` when the range extends past the end of the object.
    pub fn read_spans(&self, offset: usize, length: usize) -> (r: Result<Vec<Span>, Error>)
        ensures
            match r {
                Ok(spans) => offset + length <= self.spec_len() && tiles(
                    spans@,
                    self.spec_chunk_size(),
                    offset as int,
                    length as int,
                ),
                Err(e) => offset + length > self.spec_len() && e is OOB,
            },
    {
        proof {
            use_type_invariant(self);
        }
        if offset > self.len || length > self.len - offset {
            return Err(Error::OOB);
        }
        let end = offset + length;
        let cs = self.chunk_size;
        let mut spans: Vec<Span> = Vec::new();
        let mut pos = offset;
        while pos < end
            invariant
                cs > 0,
                offset <= pos <= end,
                forall|i: int|
                    0 <= i < spans@.len() ==> {
                        &&& #[trigger] spans@[i].chunk % cs == 0
                        &&& spans@[i].take > 0
                        &&& spans@[i].skip + spans@[i].take <= cs
                    },
                spans@.len() == 0 <==> pos == offset,
                spans@.len() > 0 ==> spans@[0].chunk + spans@[0].skip == offset,
                forall|i: int|
                    0 <= i < spans@.len() - 1 ==> #[trigger] spans@[i + 1].chunk + spans@[i
                        + 1].skip == spans@[i].chunk + spans@[i].skip + spans@[i].take,
                spans@.len() > 0 ==> spans@.last().chunk + spans@.last().skip
                    + spans@.last().take == pos,
            decreases end - pos,
        {
            proof {
                lemma_normalized(cs, pos);
            }
            let chunk = pos - pos % cs;
            let skip = pos - chunk;
            let room = cs - skip;
            let take = if room <= end - pos {
                room
            } else {
                end - pos
            };
            spans.push(Span { chunk, skip, take });
            pos = pos + take;
        }
        Ok(spans)
    }
}

} // verus!
