//! What each byte of a chunk means, in plain arithmetic.
//!
//! Between them these laws settle every reader and every buffer: for each field they say how many
//! bytes it has, what the bytes stand for and what is left to read.

use crate::chunk_header::{ChunkHeader, ChunkHeaderFormat};
use crate::messages::{Message, MessagePayload};
use crate::model::{ParseStage, Progress, ReaderState};
use crate::time::RtmpTimestamp;
use vstd::prelude::*;

verus! {

/// Bytes that are handed over go behind those that wait, and nothing else changes.
pub proof fn law_bytes_go_to_the_end_of_the_buffer(reader: ReaderState, bytes: Seq<u8>)
    ensures
        reader.fed(bytes).buffer == reader.buffer + bytes,
        reader.fed(bytes).max_chunk_size == reader.max_chunk_size,
        reader.fed(bytes).format == reader.format,
        reader.fed(bytes).header == reader.header,
        reader.fed(bytes).stage == reader.stage,
        reader.fed(bytes).payload == reader.payload,
        reader.fed(bytes).previous_headers == reader.previous_headers,
{
}

/// The view of a message has its timestamp, its type, its message stream and its bytes.
pub proof fn law_view_of_a_message_is_the_message(payload: MessagePayload)
    ensures
        payload@.timestamp.value == payload.timestamp.value,
        payload@.type_id == payload.type_id,
        payload@.message_stream_id == payload.message_stream_id,
        payload@.data == payload.data@,
{
}

/// A new reader is in front of a chunk, with no bytes, nothing put together, and no chunk stream
/// known.
pub proof fn law_new_reader_knows_nothing(max_chunk_size: nat, csid: u32)
    ensures
        ReaderState::initial(max_chunk_size).max_chunk_size == max_chunk_size,
        ReaderState::initial(max_chunk_size).stage is Csid,
        ReaderState::initial(max_chunk_size).buffer.len() == 0,
        ReaderState::initial(max_chunk_size).payload.data.len() == 0,
        !ReaderState::initial(max_chunk_size).previous_headers.contains_key(csid),
        !ReaderState::initial(max_chunk_size).knows(csid),
{
}

/// The two top bits of the first byte of a chunk are its format. The six low bits are its chunk
/// stream id from 2 on; 0 stands for an id of 64 more than the second byte, and 1 for one of 64
/// more than the second byte and 256 times the third. A full chunk starts a header of zeros. Any
/// other takes the header of its chunk stream, or is refused if there is none.
pub proof fn law_first_bytes_are_format_and_chunk_stream_id(reader: ReaderState)
    requires
        reader.stage is Csid,
    ensures
        reader.buffer.len() == 0 ==> reader.decoded() == (reader, Progress::NeedsBytes),
        reader.buffer.len() > 0 ==> ({
            let first = reader.buffer[0];
            let format = if first < 64 {
                ChunkHeaderFormat::Full
            } else if first < 128 {
                ChunkHeaderFormat::TimeDeltaWithoutMessageStreamId
            } else if first < 192 {
                ChunkHeaderFormat::TimeDeltaOnly
            } else {
                ChunkHeaderFormat::Empty
            };
            let width: int = if first % 64 == 0 {
                2
            } else if first % 64 == 1 {
                3
            } else {
                1
            };
            let csid: u32 = if first % 64 == 0 {
                (reader.buffer[1] + 64) as u32
            } else if first % 64 == 1 {
                (reader.buffer[1] + reader.buffer[2] * 256 + 64) as u32
            } else {
                (first % 64) as u32
            };
            if reader.buffer.len() < width {
                reader.decoded() == (ReaderState { format, ..reader }, Progress::NeedsBytes)
            } else if first < 64 {
                reader.decoded() == (ReaderState {
                    format,
                    header: ChunkHeader {
                        chunk_stream_id: csid,
                        timestamp: RtmpTimestamp { value: 0 },
                        timestamp_delta: 0,
                        message_length: 0,
                        message_type_id: 0,
                        message_stream_id: 0,
                    },
                    stage: ParseStage::InitialTimestamp,
                    buffer: reader.buffer.skip(width),
                    ..reader
                }).decoded()
            } else if reader.previous_headers.contains_key(csid) {
                reader.decoded() == (ReaderState {
                    format,
                    header: reader.previous_headers[csid],
                    stage: ParseStage::InitialTimestamp,
                    buffer: reader.buffer.skip(width),
                    previous_headers: reader.previous_headers.remove(csid),
                    ..reader
                }).decoded()
            } else {
                reader.decoded() == (
                    ReaderState { format, ..reader },
                    Progress::NoPreviousChunk(csid),
                )
            }
        }),
{
}

/// The timestamp field has three bytes, the most significant one first. In a full chunk it is the
/// timestamp. In chunks with a time delta it is the delta, by which the timestamp moves on. A chunk
/// without header fields has no such field: its timestamp moves on by the last delta if no byte of
/// the message has come yet, and stays where it is otherwise.
pub proof fn law_timestamp_field_is_three_bytes(reader: ReaderState)
    requires
        reader.stage is InitialTimestamp,
    ensures
        !(reader.format is Empty) && reader.buffer.len() < 3 ==> reader.decoded() == (
            reader,
            Progress::NeedsBytes,
        ),
        !(reader.format is Empty) && reader.buffer.len() >= 3 ==> ({
            let field = reader.buffer[0] * 65536 + reader.buffer[1] * 256 + reader.buffer[2];
            reader.decoded() == (ReaderState {
                header: if reader.format is Full {
                    ChunkHeader {
                        timestamp: RtmpTimestamp { value: field as u32 },
                        ..reader.header
                    }
                } else {
                    ChunkHeader {
                        timestamp: RtmpTimestamp {
                            value: ((reader.header.timestamp.value + field) % 4294967296) as u32,
                        },
                        timestamp_delta: field as u32,
                        ..reader.header
                    }
                },
                stage: ParseStage::MessageLength,
                buffer: reader.buffer.skip(3),
                ..reader
            }).decoded()
        }),
        reader.format is Empty && reader.payload.data.len() == 0 ==> reader.decoded() == (
        ReaderState {
            header: ChunkHeader {
                timestamp: RtmpTimestamp {
                    value: ((reader.header.timestamp.value + reader.header.timestamp_delta)
                        % 4294967296) as u32,
                },
                ..reader.header
            },
            stage: ParseStage::MessageLength,
            ..reader
        }).decoded(),
        reader.format is Empty && reader.payload.data.len() > 0 ==> reader.decoded() == (
        ReaderState { stage: ParseStage::MessageLength, ..reader }).decoded(),
{
    assert(reader.buffer.skip(0) =~= reader.buffer);
}

/// The message length has three bytes, the most significant one first, in full chunks and in those
/// that leave out the message stream only. Other chunks keep the length of their chunk stream.
pub proof fn law_message_length_is_three_bytes(reader: ReaderState)
    requires
        reader.stage is MessageLength,
    ensures
        reader.format is Full || reader.format is TimeDeltaWithoutMessageStreamId ==> if
            reader.buffer.len() < 3 {
            reader.decoded() == (reader, Progress::NeedsBytes)
        } else {
            reader.decoded() == (ReaderState {
                header: ChunkHeader {
                    message_length: (reader.buffer[0] * 65536 + reader.buffer[1] * 256
                        + reader.buffer[2]) as u32,
                    ..reader.header
                },
                stage: ParseStage::MessageTypeId,
                buffer: reader.buffer.skip(3),
                ..reader
            }).decoded()
        },
        reader.format is TimeDeltaOnly || reader.format is Empty ==> reader.decoded() == (
        ReaderState { stage: ParseStage::MessageTypeId, ..reader }).decoded(),
{
    assert(reader.buffer.skip(0) =~= reader.buffer);
}

/// The message type is one byte, in the same chunks as the message length.
pub proof fn law_message_type_is_one_byte(reader: ReaderState)
    requires
        reader.stage is MessageTypeId,
    ensures
        reader.format is Full || reader.format is TimeDeltaWithoutMessageStreamId ==> if
            reader.buffer.len() < 1 {
            reader.decoded() == (reader, Progress::NeedsBytes)
        } else {
            reader.decoded() == (ReaderState {
                header: ChunkHeader { message_type_id: reader.buffer[0], ..reader.header },
                stage: ParseStage::MessageStreamId,
                buffer: reader.buffer.skip(1),
                ..reader
            }).decoded()
        },
        reader.format is TimeDeltaOnly || reader.format is Empty ==> reader.decoded() == (
        ReaderState { stage: ParseStage::MessageStreamId, ..reader }).decoded(),
{
    assert(reader.buffer.skip(0) =~= reader.buffer);
}

/// The message stream id has four bytes, the least significant one first, in full chunks only.
pub proof fn law_message_stream_id_is_four_bytes_low_first(reader: ReaderState)
    requires
        reader.stage is MessageStreamId,
    ensures
        reader.format is Full ==> if reader.buffer.len() < 4 {
            reader.decoded() == (reader, Progress::NeedsBytes)
        } else {
            reader.decoded() == (ReaderState {
                header: ChunkHeader {
                    message_stream_id: (reader.buffer[0] + reader.buffer[1] * 256
                        + reader.buffer[2] * 65536 + reader.buffer[3] * 16777216) as u32,
                    ..reader.header
                },
                stage: ParseStage::ExtendedTimestamp,
                buffer: reader.buffer.skip(4),
                ..reader
            }).decoded()
        },
        !(reader.format is Full) ==> reader.decoded() == (ReaderState {
            stage: ParseStage::ExtendedTimestamp,
            ..reader
        }).decoded(),
{
    assert(reader.buffer.skip(0) =~= reader.buffer);
}

/// An extended timestamp of four bytes, the most significant one first, follows where the three
/// bytes have all bits set, that is, where the timestamp of a full chunk or the delta of one with a
/// delta is 16777215 so far. It then takes the place of these three bytes.
pub proof fn law_extended_timestamp_is_four_bytes(reader: ReaderState)
    requires
        reader.stage is ExtendedTimestamp,
    ensures
        ({
            let extended = match reader.format {
                ChunkHeaderFormat::Full => reader.header.timestamp.value >= 16777215,
                ChunkHeaderFormat::Empty => false,
                _ => reader.header.timestamp_delta >= 16777215,
            };
            let field = reader.buffer[0] * 16777216 + reader.buffer[1] * 65536 + reader.buffer[2]
                * 256 + reader.buffer[3];
            if !extended {
                reader.decoded() == (ReaderState {
                    stage: ParseStage::MessagePayload,
                    ..reader
                }).decoded()
            } else if reader.buffer.len() < 4 {
                reader.decoded() == (reader, Progress::NeedsBytes)
            } else {
                reader.decoded() == (ReaderState {
                    header: if reader.format is Full {
                        ChunkHeader {
                            timestamp: RtmpTimestamp { value: field as u32 },
                            ..reader.header
                        }
                    } else {
                        ChunkHeader {
                            timestamp: RtmpTimestamp {
                                value: ((reader.header.timestamp.value - 16777215 + field)
                                    % 4294967296) as u32,
                            },
                            timestamp_delta: field as u32,
                            ..reader.header
                        }
                    },
                    stage: ParseStage::MessagePayload,
                    buffer: reader.buffer.skip(4),
                    ..reader
                }).decoded()
            }
        }),
{
    assert(reader.buffer.skip(0) =~= reader.buffer);
}

/// A chunk holds the whole of a message that is no longer than the maximum chunk size. Of a longer
/// one it holds the maximum, or the rest if that is less. Its bytes go behind those that the
/// message has. The message is complete as soon as it has the announced length, and is then given
/// out with what the header says of it. The header is kept for its chunk stream, and the next
/// chunk starts.
pub proof fn law_chunk_holds_message_bytes_up_to_the_maximum(reader: ReaderState)
    requires
        reader.stage is MessagePayload,
    ensures
        ({
            let announced = reader.header.message_length as int;
            let so_far = reader.payload.data.len() as int;
            let max = reader.max_chunk_size as int;
            let count = if announced <= max {
                announced
            } else if so_far <= announced && announced - so_far < max {
                announced - so_far
            } else {
                max
            };
            let message = Message {
                timestamp: reader.header.timestamp,
                type_id: reader.header.message_type_id,
                message_stream_id: reader.header.message_stream_id,
                data: reader.payload.data + reader.buffer.take(count),
            };
            let zeros = ChunkHeader {
                chunk_stream_id: 0,
                timestamp: RtmpTimestamp { value: 0 },
                timestamp_delta: 0,
                message_length: 0,
                message_type_id: 0,
                message_stream_id: 0,
            };
            let headers = reader.previous_headers.insert(
                reader.header.chunk_stream_id,
                reader.header,
            );
            if reader.buffer.len() < count {
                reader.decoded() == (reader, Progress::NeedsBytes)
            } else if so_far + count == announced {
                let (next, progress) = reader.decoded();
                &&& progress == Progress::Delivers(message)
                &&& next.payload.data.len() == 0
                &&& next == ReaderState {
                    header: zeros,
                    stage: ParseStage::Csid,
                    payload: next.payload,
                    buffer: reader.buffer.skip(count),
                    previous_headers: headers,
                    ..reader
                }
            } else {
                reader.decoded() == (ReaderState {
                    header: zeros,
                    stage: ParseStage::Csid,
                    payload: message,
                    buffer: reader.buffer.skip(count),
                    previous_headers: headers,
                    ..reader
                }).decoded()
            }
        }),
{
}

/// On a new connection the first chunk is refused unless it is a full one, whatever its chunk
/// stream and whatever follows: there is nothing yet that it could take over.
pub proof fn law_new_connection_refuses_all_but_full_chunks(bytes: Seq<u8>)
    requires
        bytes.len() >= 1,
        bytes[0] >= 64,
        bytes[0] % 64 == 0 ==> bytes.len() >= 2,
        bytes[0] % 64 == 1 ==> bytes.len() >= 3,
    ensures
        ReaderState::initial(128).fed(bytes).decoded().1 == Progress::NoPreviousChunk(
            if bytes[0] % 64 == 0 {
                (bytes[1] + 64) as u32
            } else if bytes[0] % 64 == 1 {
                (bytes[1] + bytes[2] * 256 + 64) as u32
            } else {
                (bytes[0] % 64) as u32
            },
        ),
        ReaderState::initial(128).fed(bytes).decoded().0.buffer == bytes,
{
    let reader = ReaderState::initial(128).fed(bytes);
    assert(reader.buffer =~= bytes);
    law_first_bytes_are_format_and_chunk_stream_id(reader);
}

} // verus!
