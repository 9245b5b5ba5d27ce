//! Error values produced by the library.

use vstd::prelude::*;
use vstd::string::StringExecFns;

use crate::sources::http::{status_label, status_text};
use crate::text::{decimal, push_decimal};

verus! {

/// The category of an I/O failure, mirroring the kinds that callers match on.
#[derive(Clone, Copy, Debug, PartialEq, Eq, Structural)]
pub enum ErrorKind {
    InvalidInput,
    InvalidData,
    UnexpectedEof,
    NotFound,
    PermissionDenied,
    Other,
}

/// Why an operation failed.
#[derive(Clone, Copy, Debug, PartialEq, Eq, Structural)]
pub enum Reason {
    /// A chunk index times the chunk size does not fit in `usize`.
    ChunkOffsetOverflow,
    /// A byte offset is not a multiple of the chunk size.
    ChunkOffsetUnaligned,
    /// A chunk offset lies at or beyond the end of the object.
    ChunkOffsetAtEof,
    /// A metadata chunk size of zero.
    ChunkSizeZero,
    /// A metadata chunk size above the maximum.
    ChunkSizeTooLarge,
    /// More chunk records than the object has chunks.
    ChunkCountExceedsLength,
    /// A chunk record whose index lies at or beyond the end of the object.
    ChunkIndexAtEof,
    /// Chunk records that are not sorted by index, or repeat an index.
    ChunksUnsorted,
    /// A builder without its required reader.
    BuilderMissingReader,
    /// A builder without its required writer.
    BuilderMissingWriter,
    /// A builder whose chunk size is zero.
    BuilderZeroChunkSize,
    /// A builder whose chunk size exceeds the maximum.
    BuilderChunkSizeTooLarge,
    /// A coordinator builder without its required writer.
    WriterRequired,
    /// A coordinator builder without its required metadata store.
    MetadataRequired,
    /// A coordinator builder without its required reader registry.
    RegistryRequired,
    /// A ranged read whose last byte position does not fit in `usize`.
    RangeEndOverflow,
    /// A partial response without a parseable `Content-Range` header.
    MalformedContentRange,
    /// A partial response that starts elsewhere than requested.
    RangeStartMismatch { start: usize, expected: usize },
    /// A `Content-Range` whose length does not fit in `usize`.
    InvalidContentRangeLength,
    /// A partial response that advertises more bytes than were requested.
    RangeLongerThanRequest { advertised: usize, requested: usize },
    /// A response body shorter or longer than its advertised length.
    BodyLengthMismatch { copied: usize, advertised: usize },
    /// A response status that a ranged read cannot use.
    UnexpectedStatus { status: u16, offset: usize },
    /// No probe revealed the length of the object.
    LengthUnknown,
    /// A window whose end does not fit in `usize`.
    ReaderRangeOverflow,
    /// A window that extends past the end of the source.
    ReaderRangePastEnd,
    /// A read at or beyond the end of the object.
    RangeNotSatisfied,
    /// A decoded value that left bytes unread.
    TrailingBytes,
    /// An object-store operator that cannot stat objects.
    OperatorCannotStat,
    /// An object-store operator that cannot read objects.
    OperatorCannotRead,
    /// An object whose length does not fit in `usize`.
    ObjectTooLarge,
}

/// An I/O failure: its kind and the reason behind it.
#[derive(Clone, Copy, Debug, PartialEq, Eq, Structural)]
pub struct IoError {
    pub kind: ErrorKind,
    pub reason: Reason,
}

/// The library's error type.
#[derive(Debug)]
pub enum Error {
    /// An I/O error occurred.
    Io(IoError),
    /// An out of bounds read occurred.
    OOB,
    /// An error occurred outside of the handled cases.
    Other(String),
}

/// The text that describes `reason`.
pub open spec fn reason_text(reason: Reason) -> Seq<char> {
    match reason {
        Reason::ChunkOffsetOverflow => "metadata chunk offset exceeds usize"@,
        Reason::ChunkOffsetUnaligned => "metadata chunk offset is not aligned to chunk_size"@,
        Reason::ChunkOffsetAtEof => "metadata chunk offset is at or beyond EOF"@,
        Reason::ChunkSizeZero => "metadata chunk_size must be greater than zero"@,
        Reason::ChunkSizeTooLarge => "metadata chunk_size exceeds maximum"@,
        Reason::ChunkCountExceedsLength => "metadata chunk count exceeds object length"@,
        Reason::ChunkIndexAtEof => "metadata chunk index is at or beyond EOF"@,
        Reason::ChunksUnsorted => "metadata chunks must be sorted and unique"@,
        Reason::BuilderMissingReader => "builder missing required field: reader"@,
        Reason::BuilderMissingWriter => "builder missing required field: writer"@,
        Reason::BuilderZeroChunkSize => "builder field chunk_size must be greater than zero"@,
        Reason::BuilderChunkSizeTooLarge => "builder field chunk_size exceeds maximum"@,
        Reason::WriterRequired => "Writer implementation is required"@,
        Reason::MetadataRequired => "Metadata implementation is required"@,
        Reason::RegistryRequired => "ReaderRegistry implementation is required"@,
        Reason::RangeEndOverflow => "range end overflow"@,
        Reason::MalformedContentRange => "missing or malformed Content-Range"@,
        Reason::RangeStartMismatch { start, expected } => "HTTP range response started at "@ + decimal(
            start as nat,
        ) + ", expected "@ + decimal(expected as nat),
        Reason::InvalidContentRangeLength => "invalid Content-Range length"@,
        Reason::RangeLongerThanRequest { advertised, requested } => "HTTP range response advertised "@
            + decimal(advertised as nat) + " bytes for a "@ + decimal(requested as nat)
            + " byte request"@,
        Reason::BodyLengthMismatch { copied, advertised } => "HTTP range response body length "@
            + decimal(copied as nat) + " did not match advertised length "@ + decimal(
            advertised as nat,
        ),
        Reason::UnexpectedStatus { status, offset } => "unexpected HTTP status "@ + status_label(status)
            + " for ranged read at offset "@ + decimal(offset as nat),
        Reason::LengthUnknown => "failed to determine content length"@,
        Reason::ReaderRangeOverflow => "reader range overflowed usize"@,
        Reason::ReaderRangePastEnd => "reader range extends past end of source"@,
        Reason::RangeNotSatisfied => "range not satisfied"@,
        Reason::TrailingBytes => "metadata value has trailing bytes"@,
        Reason::OperatorCannotStat => "OpenDAL operator does not support stat"@,
        Reason::OperatorCannotRead => "OpenDAL operator does not support read"@,
        Reason::ObjectTooLarge => "OpenDAL object length exceeds usize"@,
    }
}

impl IoError {
    /// The text that describes this failure.
    pub fn message(&self) -> (m: String)
        ensures
            m@ == reason_text(self.reason),
    {
        match self.reason {
            Reason::ChunkOffsetOverflow => String::from_str("metadata chunk offset exceeds usize"),
            Reason::ChunkOffsetUnaligned => String::from_str("metadata chunk offset is not aligned to chunk_size"),
            Reason::ChunkOffsetAtEof => String::from_str("metadata chunk offset is at or beyond EOF"),
            Reason::ChunkSizeZero => String::from_str("metadata chunk_size must be greater than zero"),
            Reason::ChunkSizeTooLarge => String::from_str("metadata chunk_size exceeds maximum"),
            Reason::ChunkCountExceedsLength => String::from_str("metadata chunk count exceeds object length"),
            Reason::ChunkIndexAtEof => String::from_str("metadata chunk index is at or beyond EOF"),
            Reason::ChunksUnsorted => String::from_str("metadata chunks must be sorted and unique"),
            Reason::BuilderMissingReader => String::from_str("builder missing required field: reader"),
            Reason::BuilderMissingWriter => String::from_str("builder missing required field: writer"),
            Reason::BuilderZeroChunkSize => String::from_str("builder field chunk_size must be greater than zero"),
            Reason::BuilderChunkSizeTooLarge => String::from_str("builder field chunk_size exceeds maximum"),
            Reason::WriterRequired => String::from_str("Writer implementation is required"),
            Reason::MetadataRequired => String::from_str("Metadata implementation is required"),
            Reason::RegistryRequired => String::from_str("ReaderRegistry implementation is required"),
            Reason::RangeEndOverflow => String::from_str("range end overflow"),
            Reason::MalformedContentRange => String::from_str("missing or malformed Content-Range"),
            Reason::RangeStartMismatch { start, expected } => {
                let mut m = String::from_str("HTTP range response started at ");
                push_decimal(&mut m, start);
                m.append(", expected ");
                push_decimal(&mut m, expected);
                m
            },
            Reason::InvalidContentRangeLength => String::from_str("invalid Content-Range length"),
            Reason::RangeLongerThanRequest { advertised, requested } => {
                let mut m = String::from_str("HTTP range response advertised ");
                push_decimal(&mut m, advertised);
                m.append(" bytes for a ");
                push_decimal(&mut m, requested);
                m.append(" byte request");
                m
            },
            Reason::BodyLengthMismatch { copied, advertised } => {
                let mut m = String::from_str("HTTP range response body length ");
                push_decimal(&mut m, copied);
                m.append(" did not match advertised length ");
                push_decimal(&mut m, advertised);
                m
            },
            Reason::UnexpectedStatus { status, offset } => {
                let mut m = String::from_str("unexpected HTTP status ");
                if 100 <= status && status <= 999 {
                    let t = status_text(status);
                    m.append(t.as_str());
                } else {
                    push_decimal(&mut m, status as usize);
                }
                m.append(" for ranged read at offset ");
                push_decimal(&mut m, offset);
                m
            },
            Reason::LengthUnknown => String::from_str("failed to determine content length"),
            Reason::ReaderRangeOverflow => String::from_str("reader range overflowed usize"),
            Reason::ReaderRangePastEnd => String::from_str("reader range extends past end of source"),
            Reason::RangeNotSatisfied => String::from_str("range not satisfied"),
            Reason::TrailingBytes => String::from_str("metadata value has trailing bytes"),
            Reason::OperatorCannotStat => String::from_str("OpenDAL operator does not support stat"),
            Reason::OperatorCannotRead => String::from_str("OpenDAL operator does not support read"),
            Reason::ObjectTooLarge => String::from_str("OpenDAL object length exceeds usize"),
        }
    }
}

impl Error {
    /// The text that describes this error.
    pub open spec fn text(&self) -> Seq<char> {
        match self {
            Error::Io(e) => "I/O error: "@ + reason_text(e.reason),
            Error::OOB => "Out-of-bounds read"@,
            Error::Other(s) => s@,
        }
    }

    /// The text that describes this error.
    pub fn message(&self) -> (m: String)
        ensures
            m@ == self.text(),
    {
        match self {
            Error::Io(e) => {
                let mut m = String::from_str("I/O error: ");
                let detail = e.message();
                m.append(detail.as_str());
                m
            },
            Error::OOB => String::from_str("Out-of-bounds read"),
            Error::Other(s) => String::from_str(s.as_str()),
        }
    }
}

impl From<IoError> for Error {
    fn from(e: IoError) -> (r: Self)
        ensures
            r == Error::Io(e),
    {
        Error::Io(e)
    }
}

impl vstd::std_specs::convert::FromSpecImpl<IoError> for Error {
    open spec fn obeys_from_spec() -> bool {
        true
    }

    open spec fn from_spec(e: IoError) -> Self {
        Error::Io(e)
    }
}

/// The library's result type.
pub type Result<T> = core::result::Result<T, Error>;

/// The value `invalid_data` builds for `reason`.
pub open spec fn invalid_data_error(reason: Reason) -> IoError {
    IoError { kind: ErrorKind::InvalidData, reason }
}

/// Builds an `InvalidData` failure for `reason`.
pub fn invalid_data(reason: Reason) -> (e: IoError)
    ensures
        e == invalid_data_error(reason),
{
    IoError { kind: ErrorKind::InvalidData, reason }
}

} // verus!
