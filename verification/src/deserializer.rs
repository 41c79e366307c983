//! The reader that turns incoming bytes into messages.

use crate::chunk_header::{ChunkHeader, ChunkHeaderFormat};
use crate::errors::{ChunkDeserializationError, ChunkDeserializationErrorKind};
use crate::messages::MessagePayload;
use crate::model::{
    ParseStage, Progress, ReaderState, LARGEST_MAX_CHUNK_SIZE, MAX_INITIAL_TIMESTAMP,
};
use crate::wire::{read_u24_be, read_u32_be, read_u32_le};
use std::collections::HashMap;
use vstd::prelude::*;

verus! {

broadcast use vstd::std_specs::hash::group_hash_axioms;

/// The maximum chunk size until another one is set.
pub const INITIAL_MAX_CHUNK_SIZE: usize = 128;

const TYPE_0_MASK: u8 = 0b00000000;

const TYPE_1_MASK: u8 = 0b01000000;

const TYPE_2_MASK: u8 = 0b10000000;

const FORMAT_MASK: u8 = 0b11000000;

const CSID_MASK: u8 = 0b00111111;

/// Allows deserializing bytes representing RTMP chunks into RTMP message payloads.
///
/// Due to the nature of the RTMP chunk protocol it is required that every byte going through the
/// wire is sent to the same `ChunkDeserializer` instance, as future chunks can rely on previous
/// chunks, so any chunks missing from the stream may cause deserialization errors.
pub struct ChunkDeserializer {
    max_chunk_size: usize,
    current_header_format: ChunkHeaderFormat,
    current_header: ChunkHeader,
    current_stage: ParseStage,
    current_payload: MessagePayload,
    buffer: Vec<u8>,
    previous_headers: HashMap<u32, ChunkHeader>,
}

/// A value at the front of a buffer, with the index of the byte behind it.
#[derive(Debug, PartialEq, Eq)]
pub enum ParsedValue<T> {
    NotEnoughBytes,
    Value { val: T, next_index: u32 },
}

/// Whether a stage found the whole of its field in the buffer.
#[derive(Copy, Clone, Debug, PartialEq, Eq, Structural)]
enum ParseStageResult {
    Success,
    NotEnoughBytes,
}

/// Whether `result` is what a stage that ends in `progress` returns.
spec fn stage_returns(
    result: Result<ParseStageResult, ChunkDeserializationError>,
    progress: Progress,
) -> bool {
    match progress {
        Progress::Continues => result == Ok::<_, ChunkDeserializationError>(
            ParseStageResult::Success,
        ),
        Progress::Delivers(_) => result == Ok::<_, ChunkDeserializationError>(
            ParseStageResult::Success,
        ),
        Progress::NeedsBytes => result == Ok::<_, ChunkDeserializationError>(
            ParseStageResult::NotEnoughBytes,
        ),
        Progress::NoPreviousChunk(csid) => result == Err::<ParseStageResult, _>(
            ChunkDeserializationError {
                kind: ChunkDeserializationErrorKind::NoPreviousChunkOnStream { csid },
            },
        ),
    }
}

impl View for ChunkDeserializer {
    type V = ReaderState;

    closed spec fn view(&self) -> ReaderState {
        ReaderState {
            max_chunk_size: self.max_chunk_size as nat,
            format: self.current_header_format,
            header: self.current_header,
            stage: self.current_stage,
            payload: self.current_payload@,
            buffer: self.buffer@,
            previous_headers: self.previous_headers@,
        }
    }
}

impl ChunkDeserializer {
    /// A deserializer at the start of a connection.
    pub fn new() -> (deserializer: ChunkDeserializer)
        ensures
            deserializer@ == ReaderState::initial(INITIAL_MAX_CHUNK_SIZE as nat),
            deserializer@.max_chunk_size == 128,
            deserializer@.stage is Csid,
            deserializer@.buffer.len() == 0,
            deserializer@.payload.data.len() == 0,
            forall|csid: u32| !(#[trigger] deserializer@.previous_headers.contains_key(csid)),
            deserializer@.wf(),
    {
        ChunkDeserializer {
            max_chunk_size: INITIAL_MAX_CHUNK_SIZE,
            current_header_format: ChunkHeaderFormat::Full,
            current_header: ChunkHeader::new(),
            current_stage: ParseStage::Csid,
            buffer: Vec::new(),
            previous_headers: HashMap::new(),
            current_payload: MessagePayload::new(),
        }
    }

    /// Hands over the next bytes of the connection, and reads until a message is complete.
    ///
    /// Without a message there are two ways out: all the bytes so far are part of what is still
    /// incomplete, or a chunk relies on a previous one that never came. Bytes behind the returned
    /// message are kept, and a further call, with or without more bytes, goes on from there.
    pub fn get_next_message(&mut self, bytes: &[u8]) -> (result: Result<
        Option<MessagePayload>,
        ChunkDeserializationError,
    >)
        ensures
            final(self)@ == old(self)@.fed(bytes@).decoded().0,
            match old(self)@.fed(bytes@).decoded().1 {
                Progress::Delivers(message) => {
                    &&& result matches Ok(Some(payload))
                    &&& payload@ == message
                    &&& payload.timestamp.value == message.timestamp.value
                    &&& payload.type_id == message.type_id
                    &&& payload.message_stream_id == message.message_stream_id
                    &&& payload.data@ == message.data
                },
                Progress::NoPreviousChunk(csid) => result == Err::<Option<MessagePayload>, _>(
                    ChunkDeserializationError {
                        kind: ChunkDeserializationErrorKind::NoPreviousChunkOnStream { csid },
                    },
                ),
                _ => result == Ok::<_, ChunkDeserializationError>(None::<MessagePayload>),
            },
            old(self)@.wf() ==> final(self)@.wf(),
    {
        proof {
            if old(self)@.wf() {
                crate::laws::law_readers_stay_well_formed(old(self)@, bytes@);
            }
        }
        self.buffer.extend_from_slice(bytes);
        assert(self@ =~= old(self)@.fed(bytes@));

        loop
            invariant
                self@.decoded() == old(self)@.fed(bytes@).decoded(),
                old(self)@.wf() ==> old(self)@.fed(bytes@).decoded().0.wf(),
            decreases self@.buffer.len(), self@.stage.fields_left(),
        {
            proof {
                self@.lemma_step_at_own_stage();
            }
            let mut complete_message: Option<MessagePayload> = None;
            let stage_result = match self.current_stage {
                ParseStage::Csid => self.form_header(),
                ParseStage::InitialTimestamp => self.get_initial_timestamp(),
                ParseStage::MessageLength => self.get_message_length(),
                ParseStage::MessageTypeId => self.get_message_type_id(),
                ParseStage::MessageStreamId => self.get_message_stream_id(),
                ParseStage::ExtendedTimestamp => self.get_extended_timestamp(),
                ParseStage::MessagePayload => self.get_message_data(&mut complete_message),
            };
            let result = match stage_result {
                Ok(result) => result,
                Err(error) => return Err(error),
            };

            if result == ParseStageResult::NotEnoughBytes || complete_message.is_some() {
                return Ok(complete_message);
            }
        }
    }

    /// Sets the largest number of message bytes that one chunk holds.
    pub fn set_max_chunk_size(&mut self, new_size: usize) -> (result: Result<
        (),
        ChunkDeserializationError,
    >)
        ensures
            new_size <= 2147483647 ==> {
                &&& result == Ok::<(), ChunkDeserializationError>(())
                &&& final(self)@ == (ReaderState { max_chunk_size: new_size as nat, ..old(self)@ })
            },
            new_size > 2147483647 ==> {
                &&& result == Err::<(), _>(
                    ChunkDeserializationError {
                        kind: ChunkDeserializationErrorKind::InvalidMaxChunkSize {
                            chunk_size: new_size,
                        },
                    },
                )
                &&& final(self)@ == old(self)@
            },
            old(self)@.wf() ==> final(self)@.wf(),
    {
        if new_size > LARGEST_MAX_CHUNK_SIZE {
            return Err(
                ChunkDeserializationError {
                    kind: ChunkDeserializationErrorKind::InvalidMaxChunkSize {
                        chunk_size: new_size,
                    },
                },
            );
        }
        self.max_chunk_size = new_size;
        Ok(())
    }

    fn form_header(&mut self) -> (result: Result<ParseStageResult, ChunkDeserializationError>)
        ensures
            final(self)@ == old(self)@.step_at(ParseStage::Csid).0,
            stage_returns(result, old(self)@.step_at(ParseStage::Csid).1),
    {
        if self.buffer.len() < 1 {
            return Ok(ParseStageResult::NotEnoughBytes);
        }
        self.current_header_format = get_format(&self.buffer[0]);
        let (csid, next_index) = match get_csid(&self.buffer) {
            ParsedValue::NotEnoughBytes => return Ok(ParseStageResult::NotEnoughBytes),
            ParsedValue::Value { val, next_index } => (val, next_index),
        };

        self.current_header = match self.current_header_format {
            ChunkHeaderFormat::Full => {
                let mut new_header = ChunkHeader::new();
                new_header.chunk_stream_id = csid;
                new_header
            },
            _ => match self.previous_headers.remove(&csid) {
                None => {
                    assert(self.previous_headers@ =~= old(self).previous_headers@);
                    return Err(
                        ChunkDeserializationError {
                            kind: ChunkDeserializationErrorKind::NoPreviousChunkOnStream { csid },
                        },
                    )
                },
                Some(header) => header,
            },
        };

        take_front(&mut self.buffer, next_index as usize);
        self.current_stage = ParseStage::InitialTimestamp;
        Ok(ParseStageResult::Success)
    }

    fn get_initial_timestamp(&mut self) -> (result: Result<
        ParseStageResult,
        ChunkDeserializationError,
    >)
        ensures
            final(self)@ == old(self)@.step_at(ParseStage::InitialTimestamp).0,
            stage_returns(result, old(self)@.step_at(ParseStage::InitialTimestamp).1),
    {
        if self.current_header_format == ChunkHeaderFormat::Empty {
            // Some encoders send an empty header after a type 1 header due to a message split
            // across multiple chunks.  We need to be careful *NOT* to apply the delta to each
            // type 3 chunk that's trying to serve a single message, otherwise timestamps will
            // get out of control.
            if self.current_payload.data.len() == 0 {
                // Since we don't have any payload data yet, that means this is the first
                // chunk of the message.  As it's the first chunk this is the only time we should
                // apply the previous header's delta to the timestamp
                self.current_header.timestamp = self.current_header.timestamp
                    + self.current_header.timestamp_delta;
            }
            self.current_stage = ParseStage::MessageLength;
            return Ok(ParseStageResult::Success);
        }
        let timestamp: u32 = match read_u24_be(&self.buffer) {
            Some(value) => value,
            None => return Ok(ParseStageResult::NotEnoughBytes),
        };

        if self.current_header_format == ChunkHeaderFormat::Full {
            self.current_header.timestamp.set(timestamp);
        } else {
            // Non full headers are deltas only
            self.current_header.timestamp = self.current_header.timestamp + timestamp;
            self.current_header.timestamp_delta = timestamp;
        }

        take_front(&mut self.buffer, 3);
        self.current_stage = ParseStage::MessageLength;
        Ok(ParseStageResult::Success)
    }

    fn get_message_length(&mut self) -> (result: Result<
        ParseStageResult,
        ChunkDeserializationError,
    >)
        ensures
            final(self)@ == old(self)@.step_at(ParseStage::MessageLength).0,
            stage_returns(result, old(self)@.step_at(ParseStage::MessageLength).1),
    {
        if self.current_header_format == ChunkHeaderFormat::TimeDeltaOnly
            || self.current_header_format == ChunkHeaderFormat::Empty {
            self.current_stage = ParseStage::MessageTypeId;
            return Ok(ParseStageResult::Success);
        }
        let length: u32 = match read_u24_be(&self.buffer) {
            Some(value) => value,
            None => return Ok(ParseStageResult::NotEnoughBytes),
        };

        take_front(&mut self.buffer, 3);
        self.current_header.message_length = length;
        self.current_stage = ParseStage::MessageTypeId;
        Ok(ParseStageResult::Success)
    }

    fn get_message_type_id(&mut self) -> (result: Result<
        ParseStageResult,
        ChunkDeserializationError,
    >)
        ensures
            final(self)@ == old(self)@.step_at(ParseStage::MessageTypeId).0,
            stage_returns(result, old(self)@.step_at(ParseStage::MessageTypeId).1),
    {
        if self.current_header_format == ChunkHeaderFormat::TimeDeltaOnly
            || self.current_header_format == ChunkHeaderFormat::Empty {
            self.current_stage = ParseStage::MessageStreamId;
            return Ok(ParseStageResult::Success);
        }
        if self.buffer.len() < 1 {
            return Ok(ParseStageResult::NotEnoughBytes);
        }
        self.current_header.message_type_id = self.buffer[0];
        take_front(&mut self.buffer, 1);
        self.current_stage = ParseStage::MessageStreamId;
        Ok(ParseStageResult::Success)
    }

    fn get_message_stream_id(&mut self) -> (result: Result<
        ParseStageResult,
        ChunkDeserializationError,
    >)
        ensures
            final(self)@ == old(self)@.step_at(ParseStage::MessageStreamId).0,
            stage_returns(result, old(self)@.step_at(ParseStage::MessageStreamId).1),
    {
        if self.current_header_format != ChunkHeaderFormat::Full {
            self.current_stage = ParseStage::ExtendedTimestamp;
            return Ok(ParseStageResult::Success);
        }
        let stream_id: u32 = match read_u32_le(&self.buffer) {
            Some(value) => value,
            None => return Ok(ParseStageResult::NotEnoughBytes),
        };

        take_front(&mut self.buffer, 4);
        self.current_header.message_stream_id = stream_id;
        self.current_stage = ParseStage::ExtendedTimestamp;
        Ok(ParseStageResult::Success)
    }

    fn get_extended_timestamp(&mut self) -> (result: Result<
        ParseStageResult,
        ChunkDeserializationError,
    >)
        ensures
            final(self)@ == old(self)@.step_at(ParseStage::ExtendedTimestamp).0,
            stage_returns(result, old(self)@.step_at(ParseStage::ExtendedTimestamp).1),
    {
        if self.current_header_format == ChunkHeaderFormat::Empty {
            // Since this header does not have a timestamp, it uses the previously used delta.
            // However, since we don't need to deal with reading any more bytes we have already
            // added the delta to the timestamp in the initial timestamp phase, so we don't need
            // to do anything here
            self.current_stage = ParseStage::MessagePayload;
            return Ok(ParseStageResult::Success);
        }
        if self.current_header_format == ChunkHeaderFormat::Full
            && self.current_header.timestamp.value < MAX_INITIAL_TIMESTAMP {
            self.current_stage = ParseStage::MessagePayload;
            return Ok(ParseStageResult::Success);
        }
        if self.current_header_format != ChunkHeaderFormat::Full
            && self.current_header.timestamp_delta < MAX_INITIAL_TIMESTAMP {
            self.current_stage = ParseStage::MessagePayload;
            return Ok(ParseStageResult::Success);
        }
        let timestamp: u32 = match read_u32_be(&self.buffer) {
            Some(value) => value,
            None => return Ok(ParseStageResult::NotEnoughBytes),
        };

        if self.current_header_format == ChunkHeaderFormat::Full {
            self.current_header.timestamp.set(timestamp);
        } else {
            self.current_header.timestamp_delta = timestamp;

            // Since we already added the MAX_INITIAL_TIMESTAMP to the timestamp, only add the
            // delta difference.  Timestamps roll over, and so does the difference.
            self.current_header.timestamp = self.current_header.timestamp
                + timestamp.wrapping_sub(MAX_INITIAL_TIMESTAMP);
        }

        take_front(&mut self.buffer, 4);
        self.current_stage = ParseStage::MessagePayload;
        Ok(ParseStageResult::Success)
    }

    /// Reads the message bytes of a chunk. The message, if they complete it, is put into
    /// `message_to_return`, which is left as it is otherwise.
    fn get_message_data(&mut self, message_to_return: &mut Option<MessagePayload>) -> (result:
        Result<ParseStageResult, ChunkDeserializationError>)
        ensures
            final(self)@ == old(self)@.step_at(ParseStage::MessagePayload).0,
            stage_returns(result, old(self)@.step_at(ParseStage::MessagePayload).1),
            match old(self)@.step_at(ParseStage::MessagePayload).1 {
                Progress::Delivers(message) => *final(message_to_return) matches Some(payload)
                    && payload@ == message,
                _ => *final(message_to_return) == *old(message_to_return),
            },
    {
        let mut length: usize = self.current_header.message_length as usize;
        if length > self.max_chunk_size {
            let current_payload_length: usize = self.current_payload.data.len();
            // A message that has grown past the announced length goes on growing by full chunks.
            if current_payload_length <= length && length - current_payload_length
                < self.max_chunk_size {
                length = length - current_payload_length;
            } else {
                length = self.max_chunk_size;
            }
        }
        if self.buffer.len() < length {
            return Ok(ParseStageResult::NotEnoughBytes);
        }
        self.current_payload.timestamp = self.current_header.timestamp;
        self.current_payload.type_id = self.current_header.message_type_id;
        self.current_payload.message_stream_id = self.current_header.message_stream_id;

        let mut chunk_data = take_front(&mut self.buffer, length);
        self.current_payload.data.append(&mut chunk_data);

        // Check if this completes the message
        if self.current_payload.data.len() == self.current_header.message_length as usize {
            let mut payload = MessagePayload::new();
            std::mem::swap(&mut self.current_payload, &mut payload);
            *message_to_return = Some(payload);
        }
        // This completes the current chunk, so cycle the header into the map and start a new one

        let current_header = self.current_header;
        self.current_header = ChunkHeader::new();
        self.previous_headers.insert(current_header.chunk_stream_id, current_header);
        self.current_stage = ParseStage::Csid;
        Ok(ParseStageResult::Success)
    }
}

/// Takes the first `count` bytes off the buffer.
fn take_front(buffer: &mut Vec<u8>, count: usize) -> (front: Vec<u8>)
    requires
        count <= old(buffer)@.len(),
    ensures
        front@ == old(buffer)@.take(count as int),
        final(buffer)@ == old(buffer)@.skip(count as int),
{
    let mut rest = buffer.split_off(count);
    std::mem::swap(buffer, &mut rest);
    rest
}

/// The header format that the first byte of a chunk announces.
pub fn get_format(byte: &u8) -> (format: ChunkHeaderFormat)
    ensures
        format == crate::model::format_of(*byte),
        *byte < 64 ==> format is Full,
        64 <= *byte < 128 ==> format is TimeDeltaWithoutMessageStreamId,
        128 <= *byte < 192 ==> format is TimeDeltaOnly,
        192 <= *byte ==> format is Empty,
{
    let format_id: u8 = *byte & FORMAT_MASK;
    proof {
        let b = *byte;
        assert(b & 0b11000000 == (b / 64) * 64) by (bit_vector);
    }

    if format_id == TYPE_0_MASK {
        ChunkHeaderFormat::Full
    } else if format_id == TYPE_1_MASK {
        ChunkHeaderFormat::TimeDeltaWithoutMessageStreamId
    } else if format_id == TYPE_2_MASK {
        ChunkHeaderFormat::TimeDeltaOnly
    } else {
        ChunkHeaderFormat::Empty
    }
}

/// The chunk stream id at the front of the buffer.
pub fn get_csid(buffer: &Vec<u8>) -> (parsed: ParsedValue<u32>)
    ensures
        parsed == (if buffer@.len() < crate::model::basic_header_len(buffer@) {
            ParsedValue::NotEnoughBytes
        } else {
            ParsedValue::Value {
                val: crate::model::csid_of(buffer@),
                next_index: crate::model::basic_header_len(buffer@) as u32,
            }
        }),
        buffer@.len() == 0 ==> parsed is NotEnoughBytes,
        buffer@.len() > 0 && buffer@[0] % 64 >= 2 ==> {
            parsed matches ParsedValue::Value { val, next_index } && val == buffer@[0] % 64
                && next_index == 1
        },
        buffer@.len() > 0 && buffer@[0] % 64 == 0 ==> if buffer@.len() < 2 {
            parsed is NotEnoughBytes
        } else {
            parsed matches ParsedValue::Value { val, next_index } && val == buffer@[1] + 64
                && next_index == 2
        },
        buffer@.len() > 0 && buffer@[0] % 64 == 1 ==> if buffer@.len() < 3 {
            parsed is NotEnoughBytes
        } else {
            parsed matches ParsedValue::Value { val, next_index } && val == buffer@[1] + buffer@[2]
                * 256 + 64 && next_index == 3
        },
{
    if buffer.len() < 1 {
        return ParsedValue::NotEnoughBytes;
    }
    let id: u8 = buffer[0] & CSID_MASK;
    proof {
        let b = buffer@[0];
        assert(b & 0b00111111 == b % 64) by (bit_vector);
    }

    match id {
        0 => {
            if buffer.len() < 2 {
                ParsedValue::NotEnoughBytes
            } else {
                ParsedValue::Value { val: buffer[1] as u32 + 64, next_index: 2 }
            }
        },
        1 => {
            if buffer.len() < 3 {
                ParsedValue::NotEnoughBytes
            } else {
                ParsedValue::Value {
                    val: (buffer[2] as u32 * 256) + buffer[1] as u32 + 64,
                    next_index: 3,
                }
            }
        },
        x => ParsedValue::Value { val: x as u32, next_index: 1 },
    }
}

} // verus!
