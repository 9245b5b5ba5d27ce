//! Builder for [`SparseIO`](crate::instance::SparseIO) coordinators.

use std::sync::Arc;

use vstd::prelude::*;

use crate::common::chunks::MAX_CHUNK_SIZE;
use crate::error::{ErrorKind, IoError, Reason};
use crate::instance::SparseIO;
use crate::sparse::DEFAULT_CHUNK_SIZE;

verus! {

/// Builder for the coordinator: a cache writer, a metadata store and a
/// reader registry are required; the chunk size defaults to 128 KiB.
pub struct Builder<W, M, G> {
    writer: Option<W>,
    metadata: Option<M>,
    registry: Option<G>,
    chunk_size: Option<usize>,
}

impl<W, M, G> Default for Builder<W, M, G> {
    fn default() -> (b: Self)
        ensures
            b.spec_writer() is None,
            b.spec_metadata() is None,
            b.spec_registry() is None,
            b.spec_chunk_size() is None,
    {
        Builder { writer: None, metadata: None, registry: None, chunk_size: None }
    }
}

impl<W, M, G> Builder<W, M, G> {
    /// The configured writer.
    pub closed spec fn spec_writer(&self) -> Option<W> {
        self.writer
    }

    /// The configured metadata store.
    pub closed spec fn spec_metadata(&self) -> Option<M> {
        self.metadata
    }

    /// The configured reader registry.
    pub closed spec fn spec_registry(&self) -> Option<G> {
        self.registry
    }

    /// The configured chunk size.
    pub closed spec fn spec_chunk_size(&self) -> Option<usize> {
        self.chunk_size
    }

    /// A builder with nothing configured.
    pub fn new() -> (b: Self)
        ensures
            b.spec_writer() is None,
            b.spec_metadata() is None,
            b.spec_registry() is None,
            b.spec_chunk_size() is None,
    {
        Builder { writer: None, metadata: None, registry: None, chunk_size: None }
    }

    /// Sets the cache writer.
    pub fn writer(self, writer: W) -> (b: Self)
        ensures
            b.spec_writer() == Some(writer),
            b.spec_metadata() == self.spec_metadata(),
            b.spec_registry() == self.spec_registry(),
            b.spec_chunk_size() == self.spec_chunk_size(),
    {
        Builder { writer: Some(writer), metadata: self.metadata, registry: self.registry, chunk_size: self.chunk_size }
    }

    /// Sets the metadata store.
    pub fn metadata(self, metadata: M) -> (b: Self)
        ensures
            b.spec_writer() == self.spec_writer(),
            b.spec_metadata() == Some(metadata),
            b.spec_registry() == self.spec_registry(),
            b.spec_chunk_size() == self.spec_chunk_size(),
    {
        Builder { writer: self.writer, metadata: Some(metadata), registry: self.registry, chunk_size: self.chunk_size }
    }

    /// Sets the reader registry.
    pub fn registry(self, registry: G) -> (b: Self)
        ensures
            b.spec_writer() == self.spec_writer(),
            b.spec_metadata() == self.spec_metadata(),
            b.spec_registry() == Some(registry),
            b.spec_chunk_size() == self.spec_chunk_size(),
    {
        Builder { writer: self.writer, metadata: self.metadata, registry: Some(registry), chunk_size: self.chunk_size }
    }

    /// Sets the immutable chunk size.
    pub fn chunk_size(self, chunk_size: usize) -> (b: Self)
        ensures
            b.spec_writer() == self.spec_writer(),
            b.spec_metadata() == self.spec_metadata(),
            b.spec_registry() == self.spec_registry(),
            b.spec_chunk_size() == Some(chunk_size),
    {
        Builder { writer: self.writer, metadata: self.metadata, registry: self.registry, chunk_size: Some(chunk_size) }
    }

    /// Builds the coordinator. Fails on a missing writer, then on a missing
    /// metadata store, then on a missing registry, then on a chunk size above
    /// [`MAX_CHUNK_SIZE`]; the chunk size defaults to 128 KiB.
    pub fn build(self) -> (r: Result<SparseIO<W, M, G>, IoError>)
        ensures
            match r {
                Ok(io) => {
                    &&& self.spec_writer() == Some(io.writer)
                    &&& self.spec_metadata() == Some(io.metadata)
                    &&& self.spec_registry() == Some(io.registry)
                    &&& io.chunk_size == match self.spec_chunk_size() {
                        Some(n) => n,
                        None => DEFAULT_CHUNK_SIZE,
                    }
                    &&& io.chunk_size <= MAX_CHUNK_SIZE
                },
                Err(e) => e.kind == ErrorKind::InvalidInput && if self.spec_writer() is None {
                    e.reason == Reason::WriterRequired
                } else if self.spec_metadata() is None {
                    e.reason == Reason::MetadataRequired
                } else if self.spec_registry() is None {
                    e.reason == Reason::RegistryRequired
                } else {
                    self.spec_chunk_size() matches Some(n) && n > MAX_CHUNK_SIZE && e.reason
                        == Reason::BuilderChunkSizeTooLarge
                },
            },
    {
        let writer = match self.writer {
            Some(w) => w,
            None => {
                return Err(IoError { kind: ErrorKind::InvalidInput, reason: Reason::WriterRequired });
            },
        };
        let metadata = match self.metadata {
            Some(m) => m,
            None => {
                return Err(IoError { kind: ErrorKind::InvalidInput, reason: Reason::MetadataRequired });
            },
        };
        let registry = match self.registry {
            Some(g) => g,
            None => {
                return Err(IoError { kind: ErrorKind::InvalidInput, reason: Reason::RegistryRequired });
            },
        };
        let chunk_size = match self.chunk_size {
            Some(n) => n,
            None => DEFAULT_CHUNK_SIZE,
        };
        if chunk_size > MAX_CHUNK_SIZE {
            return Err(IoError { kind: ErrorKind::InvalidInput, reason: Reason::BuilderChunkSizeTooLarge });
        }
        Ok(SparseIO { writer, metadata, registry, chunk_size })
    }
}

impl<X, M, G> Builder<Arc<X>, M, G> {
    /// Sets the cache writer from a shared handle.
    pub fn writer_arc(self, writer: Arc<X>) -> (b: Self)
        ensures
            b.spec_writer() == Some(writer),
            b.spec_metadata() == self.spec_metadata(),
            b.spec_registry() == self.spec_registry(),
            b.spec_chunk_size() == self.spec_chunk_size(),
    {
        self.writer(writer)
    }
}

impl<W, Y, G> Builder<W, Arc<Y>, G> {
    /// Sets the metadata store from a shared handle.
    pub fn metadata_arc(self, metadata: Arc<Y>) -> (b: Self)
        ensures
            b.spec_writer() == self.spec_writer(),
            b.spec_metadata() == Some(metadata),
            b.spec_registry() == self.spec_registry(),
            b.spec_chunk_size() == self.spec_chunk_size(),
    {
        self.metadata(metadata)
    }
}

impl<W, M, Z> Builder<W, M, Arc<Z>> {
    /// Sets the reader registry from a shared handle.
    pub fn registry_arc(self, registry: Arc<Z>) -> (b: Self)
        ensures
            b.spec_writer() == self.spec_writer(),
            b.spec_metadata() == self.spec_metadata(),
            b.spec_registry() == Some(registry),
            b.spec_chunk_size() == self.spec_chunk_size(),
    {
        self.registry(registry)
    }
}

} // verus!
