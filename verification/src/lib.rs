//! Sparse, chunked materialization of large objects.
//!
//! The verified core of the library: chunk arithmetic, coverage tracking,
//! metadata validation and the decisions that drive a sparse read.

pub mod builder;
pub mod common;
pub mod debug;
pub mod coverage;
pub mod error;
pub mod instance;
pub mod metadata;
pub mod registry;
pub mod sources;
pub mod sparse;
pub mod storage;
pub mod text;
pub mod utils;
pub mod viewer;

pub use common::chunks::{chunk_index, chunk_offset};
pub use error::{Error, ErrorKind, IoError, Reason};
pub use registry::ReaderRegistry;
pub use sparse::{Builder, ReadPlan, ReadState};
