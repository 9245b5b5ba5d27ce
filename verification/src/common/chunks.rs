//! Chunk arithmetic: offsets, indices, lengths and counts.

use vstd::prelude::*;

use crate::error::{invalid_data, invalid_data_error, IoError, Reason};

verus! {

/// Maximum chunk size accepted by metadata and builders (1 GiB).
pub const MAX_CHUNK_SIZE: usize = 1024 * 1024 * 1024;

/// The number of chunks of `chunk_size` bytes that cover `object_len` bytes.
pub open spec fn chunk_count_spec(chunk_size: int, object_len: int) -> int {
    if object_len == 0 {
        0
    } else {
        (object_len + chunk_size - 1) / chunk_size
    }
}

/// The length of the chunk that starts at `offset` in an object of `object_len` bytes.
pub open spec fn chunk_len_spec(chunk_size: int, object_len: int, offset: int) -> int {
    if chunk_size <= object_len - offset {
        chunk_size
    } else {
        object_len - offset
    }
}

/// Converts a chunk index into its absolute byte offset.
///
/// Fails when the product does not fit in `usize`.
pub fn chunk_offset(chunk_size: usize, chunk_index: usize) -> (r: Result<usize, IoError>)
    ensures
        match r {
            Ok(offset) => offset == chunk_index * chunk_size,
            Err(e) => chunk_index * chunk_size > usize::MAX && e == invalid_data_error(
                Reason::ChunkOffsetOverflow,
            ),
        },
{
    match chunk_index.checked_mul(chunk_size) {
        Some(offset) => Ok(offset),
        None => Err(invalid_data(Reason::ChunkOffsetOverflow)),
    }
}

/// Converts an aligned byte offset into its chunk index.
///
/// Fails when `offset` is not a multiple of `chunk_size` (a zero chunk size
/// divides only the offset zero, which has no index).
pub fn chunk_index(offset: usize, chunk_size: usize) -> (r: Result<usize, IoError>)
    requires
        chunk_size > 0 || offset != 0,
    ensures
        match r {
            Ok(index) => chunk_size > 0 && offset % chunk_size == 0 && index == offset
                / chunk_size,
            Err(e) => (chunk_size == 0 || offset % chunk_size != 0) && e == invalid_data_error(
                Reason::ChunkOffsetUnaligned,
            ),
        },
{
    if chunk_size == 0 || offset % chunk_size != 0 {
        return Err(invalid_data(Reason::ChunkOffsetUnaligned));
    }
    Ok(offset / chunk_size)
}

/// Returns the byte length of the chunk that starts at `offset`.
///
/// The final chunk of an object can be shorter than `chunk_size`.
pub fn expected_chunk_len(chunk_size: usize, object_len: usize, offset: usize) -> (r: Result<
    usize,
    IoError,
>)
    ensures
        match r {
            Ok(len) => offset < object_len && len == chunk_len_spec(
                chunk_size as int,
                object_len as int,
                offset as int,
            ),
            Err(e) => offset >= object_len && e == invalid_data_error(Reason::ChunkOffsetAtEof),
        },
{
    if offset >= object_len {
        return Err(invalid_data(Reason::ChunkOffsetAtEof));
    }
    let rest = object_len - offset;
    if chunk_size <= rest {
        Ok(chunk_size)
    } else {
        Ok(rest)
    }
}

/// Returns the byte length of the chunk identified by `chunk_index`.
pub fn expected_chunk_len_for_index(chunk_size: usize, object_len: usize, chunk_index: usize) -> (r:
    Result<usize, IoError>)
    ensures
        match r {
            Ok(len) => chunk_index * chunk_size < object_len && len == chunk_len_spec(
                chunk_size as int,
                object_len as int,
                chunk_index * chunk_size,
            ),
            Err(e) => {
                ||| chunk_index * chunk_size > usize::MAX && e == invalid_data_error(
                    Reason::ChunkOffsetOverflow,
                )
                ||| chunk_index * chunk_size <= usize::MAX && chunk_index * chunk_size >= object_len
                    && e == invalid_data_error(Reason::ChunkOffsetAtEof)
            },
        },
{
    let offset = chunk_offset(chunk_size, chunk_index)?;
    expected_chunk_len(chunk_size, object_len, offset)
}

/// Returns the number of chunks required to cover an object of `object_len` bytes.
pub fn chunk_count_for_len(chunk_size: usize, object_len: usize) -> (n: usize)
    requires
        object_len == 0 || chunk_size > 0,
    ensures
        n == chunk_count_spec(chunk_size as int, object_len as int),
{
    if object_len == 0 {
        0
    } else {
        let q = object_len / chunk_size;
        let r = object_len % chunk_size;
        proof {
            lemma_div_ceil(object_len as int, chunk_size as int);
        }
        if r == 0 {
            q
        } else {
            q + 1
        }
    }
}

/// Ceiling division expressed through floor division and remainder.
pub proof fn lemma_div_ceil(a: int, b: int)
    requires
        a >= 0,
        b > 0,
    ensures
        (a + b - 1) / b == a / b + (if a % b == 0 { 0int } else { 1int }),
        a % b != 0 ==> a / b < a,
{
    vstd::arithmetic::div_mod::lemma_fundamental_div_mod(a, b);
    let q = a / b;
    let r = a % b;
    vstd::arithmetic::mul::lemma_mul_is_commutative(b, q);
    if r == 0 {
        vstd::arithmetic::div_mod::lemma_fundamental_div_mod_converse(a + b - 1, b, q, b - 1);
    } else {
        vstd::arithmetic::mul::lemma_mul_is_distributive_add_other_way(b, q, 1);
        vstd::arithmetic::div_mod::lemma_fundamental_div_mod_converse(a + b - 1, b, q + 1, r - 1);
        assert(q <= q * b) by (nonlinear_arith)
            requires
                q >= 0,
                b >= 1,
        ;
    }
}

/// A chunk index survives the trip to its byte offset and back.
pub proof fn lemma_index_offset_roundtrip(chunk_size: usize, index: usize)
    requires
        chunk_size > 0,
        index * chunk_size <= usize::MAX,
    ensures
        (index * chunk_size) % (chunk_size as int) == 0,
        (index * chunk_size) / (chunk_size as int) == index,
{
    vstd::arithmetic::div_mod::lemma_fundamental_div_mod_converse(index * chunk_size, chunk_size as int, index as int, 0);
}

/// The chunks of an object are exactly those whose offset lies before its
/// end: every chunk index below the count starts inside the object, the
/// count itself starts at or past the end, and every chunk is non-empty and
/// at most a chunk long.
pub proof fn lemma_chunk_count_bounds(chunk_size: usize, object_len: usize, index: nat)
    requires
        chunk_size > 0,
    ensures
        index < chunk_count_spec(chunk_size as int, object_len as int) <==> index * chunk_size < object_len,
        index * chunk_size < object_len ==> 0 < chunk_len_spec(chunk_size as int, object_len as int, index * chunk_size) <= chunk_size,
{
    let n = chunk_count_spec(chunk_size as int, object_len as int);
    let cs = chunk_size as int;
    if object_len > 0 {
        lemma_div_ceil(object_len as int, cs);
        vstd::arithmetic::div_mod::lemma_fundamental_div_mod(object_len as int, cs);
        let q = object_len as int / cs;
        let r = object_len as int % cs;
        if index < n {
            assert(index * cs <= (n - 1) * cs) by (nonlinear_arith)
                requires
                    index <= n - 1,
                    cs > 0,
            ;
            assert((n - 1) * cs < object_len) by (nonlinear_arith)
                requires
                    object_len == cs * q + r,
                    0 <= r < cs,
                    n - 1 == q - 1 || (r != 0 && n - 1 == q),
                    r == 0 ==> n - 1 == q - 1,
            ;
        } else {
            assert(index * cs >= n * cs) by (nonlinear_arith)
                requires
                    index >= n,
                    cs > 0,
            ;
            assert(n * cs >= object_len) by (nonlinear_arith)
                requires
                    object_len == cs * q + r,
                    0 <= r < cs,
                    (r == 0 && n == q) || (r != 0 && n == q + 1),
            ;
        }
    } else {
        assert(index * cs >= 0) by (nonlinear_arith)
            requires
                cs > 0,
        ;
    }
}

/// The total length of the first `n` chunks of an object.
pub open spec fn chunks_total(chunk_size: int, object_len: int, n: nat) -> int
    decreases n,
{
    if n == 0 {
        0
    } else {
        chunks_total(chunk_size, object_len, (n - 1) as nat) + chunk_len_spec(
            chunk_size,
            object_len,
            (n - 1) * chunk_size,
        )
    }
}

/// The chunks of an object tile it: the first `n` chunks together are `n`
/// full chunks long, or the whole object once they reach its end, and all
/// of its chunks together are exactly as long as the object.
pub proof fn lemma_chunks_tile_object(chunk_size: usize, object_len: usize, n: nat)
    requires
        chunk_size > 0,
        n <= chunk_count_spec(chunk_size as int, object_len as int),
    ensures
        chunks_total(chunk_size as int, object_len as int, n) == (if n * chunk_size <= object_len {
            n * chunk_size
        } else {
            object_len as int
        }),
        n == chunk_count_spec(chunk_size as int, object_len as int) ==> chunks_total(
            chunk_size as int,
            object_len as int,
            n,
        ) == object_len,
    decreases n,
{
    let cs = chunk_size as int;
    if n > 0 {
        let m = (n - 1) as nat;
        lemma_chunks_tile_object(chunk_size, object_len, m);
        lemma_chunk_count_bounds(chunk_size, object_len, m);
        assert(n * cs == m * cs + cs) by (nonlinear_arith)
            requires
                n == m + 1,
        ;
    }
    if n == chunk_count_spec(cs, object_len as int) {
        lemma_chunk_count_bounds(chunk_size, object_len, n);
    }
}

} // verus!
