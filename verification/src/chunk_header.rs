//! The header that describes the message a chunk belongs to.

use crate::time::RtmpTimestamp;
use vstd::prelude::*;

verus! {

/// How much of its message header a chunk spells out.
///
/// What a chunk leaves out is taken over from the previous chunk of the same chunk stream.
#[derive(Copy, Clone, Debug, PartialEq, Eq, Structural)]
pub enum ChunkHeaderFormat {
    /// Type 0: every field, with an absolute timestamp.
    Full,
    /// Type 1: a time delta, the message length and the message type.
    TimeDeltaWithoutMessageStreamId,
    /// Type 2: a time delta only.
    TimeDeltaOnly,
    /// Type 3: nothing.
    Empty,
}

impl ChunkHeaderFormat {
    /// Whether chunks of this format spell out the length and the type of their message.
    pub open spec fn names_message(self) -> bool {
        self is Full || self is TimeDeltaWithoutMessageStreamId
    }
}

/// What is known about the message that a chunk carries a part of.
#[derive(Copy, Clone, Debug, PartialEq, Eq, Structural)]
pub struct ChunkHeader {
    pub chunk_stream_id: u32,
    pub timestamp: RtmpTimestamp,
    pub timestamp_delta: u32,
    pub message_length: u32,
    pub message_type_id: u8,
    pub message_stream_id: u32,
}

impl ChunkHeader {
    /// The header of a chunk stream on which nothing has been announced yet.
    pub open spec fn blank(csid: u32) -> ChunkHeader {
        ChunkHeader {
            chunk_stream_id: csid,
            timestamp: RtmpTimestamp { value: 0 },
            timestamp_delta: 0,
            message_length: 0,
            message_type_id: 0,
            message_stream_id: 0,
        }
    }

    /// A header with every field at zero.
    pub fn new() -> (header: ChunkHeader)
        ensures
            header == ChunkHeader::blank(0),
            header.chunk_stream_id == 0,
            header.timestamp.value == 0,
            header.timestamp_delta == 0,
            header.message_length == 0,
            header.message_type_id == 0,
            header.message_stream_id == 0,
    {
        ChunkHeader {
            chunk_stream_id: 0,
            timestamp: RtmpTimestamp::new(0),
            timestamp_delta: 0,
            message_length: 0,
            message_type_id: 0,
            message_stream_id: 0,
        }
    }
}

} // verus!
