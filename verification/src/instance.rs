//! The coordinator of sparse, chunked reads across many objects.

use vstd::prelude::*;

use crate::builder::Builder;

verus! {

/// Coordinator for sparse, chunked reads and cache materialization: the
/// cache writer, the metadata store, the reader registry, and the chunk size.
pub struct SparseIO<W, M, G> {
    pub writer: W,
    pub metadata: M,
    pub registry: G,
    pub chunk_size: usize,
}

impl<W, M, G> SparseIO<W, M, G> {
    /// Creates a builder for configuring a coordinator.
    pub fn builder() -> (b: Builder<W, M, G>)
        ensures
            b.spec_writer() is None,
            b.spec_metadata() is None,
            b.spec_registry() is None,
            b.spec_chunk_size() is None,
    {
        Builder::new()
    }
}

} // verus!
