//! What can go wrong while chunks are read.

use vstd::prelude::*;

verus! {

/// `std::io::Error`, carried through as it is.
#[verifier::external_type_specification]
#[verifier::external_body]
pub struct ExIoError(std::io::Error);

/// The reason why chunks could not be read.
#[derive(Debug)]
pub enum ChunkDeserializationErrorKind {
    /// A chunk leaves out header fields, but its chunk stream has no previous chunk to take them
    /// over from.
    NoPreviousChunkOnStream { csid: u32 },
    /// The maximum chunk size asked for is larger than the protocol allows.
    InvalidMaxChunkSize { chunk_size: usize },
    /// A field could not be read from the buffered bytes.
    Io(std::io::Error),
}

/// The error of every fallible operation on chunks.
#[derive(Debug)]
pub struct ChunkDeserializationError {
    pub kind: ChunkDeserializationErrorKind,
}

impl From<std::io::Error> for ChunkDeserializationError {
    fn from(error: std::io::Error) -> (converted: ChunkDeserializationError)
        ensures
            converted.kind == ChunkDeserializationErrorKind::Io(error),
    {
        ChunkDeserializationError { kind: ChunkDeserializationErrorKind::Io(error) }
    }
}

impl vstd::std_specs::convert::FromSpecImpl<std::io::Error> for ChunkDeserializationError {
    open spec fn obeys_from_spec() -> bool {
        true
    }

    open spec fn from_spec(error: std::io::Error) -> ChunkDeserializationError {
        ChunkDeserializationError { kind: ChunkDeserializationErrorKind::Io(error) }
    }
}

} // verus!
