//! Copying windows of a byte source into caller buffers.

use vstd::prelude::*;
use vstd::slice::SliceAdditionalExecFns;

use crate::error::{ErrorKind, IoError, Reason};

verus! {

/// The smaller of `a` and `b`.
pub open spec fn min_int(a: int, b: int) -> int {
    if a <= b {
        a
    } else {
        b
    }
}

/// `buffer` after copying the first `n` bytes of `src` to position `at`.
pub open spec fn copied_into(buffer: Seq<u8>, at: int, src: Seq<u8>, n: int) -> Seq<u8> {
    buffer.take(at) + src.take(n) + buffer.skip(at + n)
}

/// Copies as many bytes of `src` as fit into `buffer` from position `at`;
/// returns how many were copied.
pub fn copy_into(buffer: &mut [u8], at: usize, src: &[u8]) -> (n: usize)
    requires
        at <= old(buffer)@.len(),
    ensures
        n == min_int(old(buffer)@.len() - at, src@.len() as int),
        final(buffer)@ == copied_into(old(buffer)@, at as int, src@, n as int),
{
    let room = buffer.len() - at;
    let n = if room <= src.len() {
        room
    } else {
        src.len()
    };
    let ghost b0 = buffer@;
    let blen = buffer.len();
    let mut i: usize = 0;
    while i < n
        invariant
            i <= n,
            n <= buffer@.len() - at,
            n <= src@.len(),
            at <= b0.len(),
            buffer@.len() == b0.len(),
            b0.len() == blen,
            at + n <= blen,
            buffer@ == b0.take(at as int) + src@.take(i as int) + b0.skip(at + i),
        decreases n - i,
    {
        buffer.set(at + i, src[i]);
        i = i + 1;
    }
    n
}

/// What a reader over the bytes `data` reports for a read at `offset` into
/// a buffer of `buffer_len` bytes: the bytes from `offset` that fit, none at
/// or beyond the end.
pub open spec fn source_read_len(data_len: int, offset: int, buffer_len: int) -> int {
    if offset >= data_len {
        0
    } else {
        min_int(buffer_len, data_len - offset)
    }
}

/// Reads from the in-memory source `data` at `offset` into `buffer`: copies
/// the exact bytes that exist there, and returns 0 at or beyond the end.
pub fn read_from_bytes(data: &[u8], offset: usize, buffer: &mut [u8]) -> (n: usize)
    ensures
        n == source_read_len(data@.len() as int, offset as int, old(buffer)@.len() as int),
        final(buffer)@ == copied_into(
            old(buffer)@,
            0,
            data@.subrange(min_int(offset as int, data@.len() as int), data@.len() as int),
            n as int,
        ),
{
    if offset >= data.len() || buffer.len() == 0 {
        assert(old(buffer)@ =~= copied_into(
            old(buffer)@,
            0,
            data@.subrange(min_int(offset as int, data@.len() as int), data@.len() as int),
            0,
        ));
        return 0;
    }
    let rest = vstd::slice::slice_subrange(data, offset, data.len());
    copy_into(buffer, 0, rest)
}

/// The byte range `offset..offset + length` of a source of `len` bytes, when
/// it lies within the source.
pub fn window(len: usize, offset: usize, length: usize) -> (r: Result<(usize, usize), IoError>)
    ensures
        match r {
            Ok((start, end)) => start == offset && end == offset + length && end <= len,
            Err(e) => if offset + length > usize::MAX {
                e == IoError { kind: ErrorKind::InvalidInput, reason: Reason::ReaderRangeOverflow }
            } else {
                offset + length > len && e == IoError {
                    kind: ErrorKind::UnexpectedEof,
                    reason: Reason::ReaderRangePastEnd,
                }
            },
        },
{
    let end = match offset.checked_add(length) {
        Some(end) => end,
        None => {
            return Err(IoError { kind: ErrorKind::InvalidInput, reason: Reason::ReaderRangeOverflow });
        },
    };
    if end > len {
        return Err(IoError { kind: ErrorKind::UnexpectedEof, reason: Reason::ReaderRangePastEnd });
    }
    Ok((offset, end))
}

/// The reader contract for an in-memory source: a non-empty read that starts
/// before the end makes forward progress, a read at or beyond the end reads
/// nothing, and no read reports more than the buffer holds.
pub proof fn lemma_source_read_contract(data_len: int, offset: int, buffer_len: int)
    requires
        data_len >= 0,
        offset >= 0,
        buffer_len >= 0,
    ensures
        offset < data_len && buffer_len > 0 ==> source_read_len(data_len, offset, buffer_len) > 0,
        offset >= data_len ==> source_read_len(data_len, offset, buffer_len) == 0,
        source_read_len(data_len, offset, buffer_len) <= buffer_len,
        offset + source_read_len(data_len, offset, buffer_len) <= data_len || offset >= data_len,
{
}

} // verus!
