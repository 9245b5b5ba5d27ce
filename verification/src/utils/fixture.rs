//! Deterministic fixture data and chunk offsets for examples and tests.

use vstd::prelude::*;

verus! {

/// Deterministic fixture bytes of length `len`: byte `i` is `i % 251`.
pub fn bytes(len: usize) -> (data: Vec<u8>)
    ensures
        data@.len() == len,
        forall|i: int| 0 <= i < len ==> #[trigger] data@[i] == i % 251,
{
    let mut data: Vec<u8> = Vec::new();
    let mut i: usize = 0;
    while i < len
        invariant
            i <= len,
            data@.len() == i,
            forall|j: int| 0 <= j < i ==> #[trigger] data@[j] == j % 251,
        decreases len - i,
    {
        data.push((i % 251) as u8);
        i = i + 1;
    }
    data
}

/// Chunk-aligned offsets covering `len` bytes: `0, step, 2 * step, ...`
/// below `len`, where `step` is `chunk_size` (at least 1).
pub fn chunk_offsets(len: usize, chunk_size: usize) -> (offsets: Vec<usize>)
    ensures
        ({
            let step = if chunk_size == 0 {
                1
            } else {
                chunk_size as int
            };
            &&& forall|i: int| 0 <= i < offsets@.len() ==> #[trigger] offsets@[i] == i * step
            &&& offsets@.len() * step >= len
            &&& offsets@.len() == 0 || (offsets@.len() - 1) * step < len
        }),
{
    let step: usize = if chunk_size == 0 {
        1
    } else {
        chunk_size
    };
    let mut offsets: Vec<usize> = Vec::new();
    let mut pos: usize = 0;
    assert(offsets@.len() * step == 0) by (nonlinear_arith)
        requires
            offsets@.len() == 0,
    ;
    while pos < len
        invariant
            step >= 1,
            step == (if chunk_size == 0 { 1 } else { chunk_size as int }),
            pos == offsets@.len() * step,
            offsets@.len() == 0 || (offsets@.len() - 1) * step < len,
            forall|i: int| 0 <= i < offsets@.len() ==> #[trigger] offsets@[i] == i * step,
        decreases len - pos,
    {
        offsets.push(pos);
        proof {
            vstd::arithmetic::mul::lemma_mul_is_distributive_add_other_way(step as int, (offsets@.len() - 1) as int, 1);
        }
        if len - pos <= step {
            return offsets;
        }
        pos = pos + step;
    }
    offsets
}

} // verus!
