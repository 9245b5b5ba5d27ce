//! The persisted description of a cached object and its validation.

pub mod spec;

pub use spec::{checksum, validate_spec, ChunkRecord, MetadataSpec};
