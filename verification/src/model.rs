//! What reading a chunk stream means, over mathematical values.
//!
//! A chunk is a run of fields, and the reader is always at the start of one of them: its
//! [`ParseStage`]. Each field has a width, which the fields before it decide. Reading is one
//! rule: while the buffered bytes cover the next field, take that field off the front of the
//! buffer and move on to the stage behind it.

use crate::chunk_header::{ChunkHeader, ChunkHeaderFormat};
use crate::messages::Message;
use crate::time::RtmpTimestamp;
use vstd::prelude::*;

verus! {

/// The largest value of the three-byte timestamp field. It stands for "the timestamp follows in
/// the extended timestamp field".
pub const MAX_INITIAL_TIMESTAMP: u32 = 16777215;

/// The largest maximum chunk size that can be asked for.
pub const LARGEST_MAX_CHUNK_SIZE: usize = 2147483647;

/// The field of a chunk that is read next.
#[derive(Copy, Clone, Debug, PartialEq, Eq, Structural)]
pub enum ParseStage {
    Csid,
    InitialTimestamp,
    MessageLength,
    MessageTypeId,
    MessageStreamId,
    MessagePayload,
    ExtendedTimestamp,
}

impl ParseStage {
    /// How many fields are left between this one and the start of the next chunk.
    pub open spec fn fields_left(self) -> nat {
        match self {
            ParseStage::Csid => 0,
            ParseStage::MessagePayload => 1,
            ParseStage::ExtendedTimestamp => 2,
            ParseStage::MessageStreamId => 3,
            ParseStage::MessageTypeId => 4,
            ParseStage::MessageLength => 5,
            ParseStage::InitialTimestamp => 6,
        }
    }
}

/// The format that the two top bits of a chunk's first byte announce.
pub open spec fn format_of(byte: u8) -> ChunkHeaderFormat {
    if byte / 64 == 0 {
        ChunkHeaderFormat::Full
    } else if byte / 64 == 1 {
        ChunkHeaderFormat::TimeDeltaWithoutMessageStreamId
    } else if byte / 64 == 2 {
        ChunkHeaderFormat::TimeDeltaOnly
    } else {
        ChunkHeaderFormat::Empty
    }
}

/// Number of bytes that the format and the chunk stream id at the front of `bytes` take up.
///
/// The six low bits of the first byte are the id itself, unless they are 0 or 1: then one or two
/// more bytes hold the id.
pub open spec fn basic_header_len(bytes: Seq<u8>) -> nat {
    if bytes.len() > 0 && bytes[0] % 64 == 0 {
        2
    } else if bytes.len() > 0 && bytes[0] % 64 == 1 {
        3
    } else {
        1
    }
}

/// The chunk stream id at the front of `bytes`.
pub open spec fn csid_of(bytes: Seq<u8>) -> u32
    recommends
        bytes.len() >= basic_header_len(bytes),
{
    if bytes[0] % 64 == 0 {
        (bytes[1] + 64) as u32
    } else if bytes[0] % 64 == 1 {
        (bytes[2] * 256 + bytes[1] + 64) as u32
    } else {
        (bytes[0] % 64) as u32
    }
}

/// How a step of the reader, or a run of steps, ended.
pub enum Progress {
    /// A field was read and no message is complete yet.
    Continues,
    /// The next field is not wholly buffered.
    NeedsBytes,
    /// The field completed this message.
    Delivers(Message),
    /// The chunk relies on an earlier one of its chunk stream, and there is none.
    NoPreviousChunk(u32),
}

/// Everything a reader of chunks remembers between two fields.
#[verifier::ext_equal]
pub struct ReaderState {
    pub max_chunk_size: nat,
    /// Format of the chunk being read.
    pub format: ChunkHeaderFormat,
    /// Header of the chunk being read, as far as it is known.
    pub header: ChunkHeader,
    pub stage: ParseStage,
    /// The message being put together.
    pub payload: Message,
    /// Bytes that have been handed over and not been read yet.
    pub buffer: Seq<u8>,
    /// Header of the last chunk of each chunk stream.
    pub previous_headers: Map<u32, ChunkHeader>,
}

impl ReaderState {
    /// A reader that has not been handed any bytes.
    pub open spec fn initial(max_chunk_size: nat) -> ReaderState {
        ReaderState {
            max_chunk_size,
            format: ChunkHeaderFormat::Full,
            header: ChunkHeader::blank(0),
            stage: ParseStage::Csid,
            payload: Message::blank(),
            buffer: Seq::empty(),
            previous_headers: Map::empty(),
        }
    }

    /// The reader after `bytes` have been handed to it.
    pub open spec fn fed(self, bytes: Seq<u8>) -> ReaderState {
        ReaderState { buffer: self.buffer + bytes, ..self }
    }

    /// Whether the chunk being read has an extended timestamp field.
    pub open spec fn expects_extended_timestamp(self) -> bool {
        match self.format {
            ChunkHeaderFormat::Full => self.header.timestamp.value >= MAX_INITIAL_TIMESTAMP,
            ChunkHeaderFormat::Empty => false,
            _ => self.header.timestamp_delta >= MAX_INITIAL_TIMESTAMP,
        }
    }

    /// Number of message bytes in the chunk being read.
    ///
    /// A message that fits a chunk is in one piece. Of a longer one, a chunk holds what is still
    /// missing, up to the maximum chunk size; it is a chunk of that size, too, if more has been
    /// put together already than the header announces.
    pub open spec fn chunk_data_len(self) -> nat {
        let length = self.header.message_length as nat;
        let missing = length - self.payload.data.len();
        if length <= self.max_chunk_size {
            length
        } else if 0 <= missing <= self.max_chunk_size {
            missing as nat
        } else {
            self.max_chunk_size
        }
    }

    /// Number of bytes that the next field takes up.
    pub open spec fn field_width(self) -> nat {
        match self.stage {
            ParseStage::Csid => basic_header_len(self.buffer),
            ParseStage::InitialTimestamp => if self.format is Empty {
                0
            } else {
                3
            },
            ParseStage::MessageLength => if self.format.names_message() {
                3
            } else {
                0
            },
            ParseStage::MessageTypeId => if self.format.names_message() {
                1
            } else {
                0
            },
            ParseStage::MessageStreamId => if self.format is Full {
                4
            } else {
                0
            },
            ParseStage::ExtendedTimestamp => if self.expects_extended_timestamp() {
                4
            } else {
                0
            },
            ParseStage::MessagePayload => self.chunk_data_len(),
        }
    }

    /// The reader at `stage` with `header`, once the next field is off the buffer.
    pub open spec fn moved_to(self, stage: ParseStage, header: ChunkHeader) -> ReaderState {
        ReaderState {
            stage,
            header,
            buffer: self.buffer.skip(self.field_width() as int),
            ..self
        }
    }

    /// The reader that waits for the rest of the next field. The format of a chunk is known as
    /// soon as its first byte is.
    pub open spec fn waiting(self) -> ReaderState {
        if self.stage is Csid && self.buffer.len() > 0 {
            ReaderState { format: format_of(self.buffer[0]), ..self }
        } else {
            self
        }
    }

    /// Reads format and chunk stream id, and recalls what the chunk may leave out.
    pub open spec fn chunk_opened(self) -> (ReaderState, Progress) {
        let csid = csid_of(self.buffer);
        let format = format_of(self.buffer[0]);
        let next = ReaderState { format, ..self };
        if format is Full {
            (
                next.moved_to(ParseStage::InitialTimestamp, ChunkHeader::blank(csid)),
                Progress::Continues,
            )
        } else if self.previous_headers.contains_key(csid) {
            (
                ReaderState {
                    previous_headers: self.previous_headers.remove(csid),
                    ..next.moved_to(
                        ParseStage::InitialTimestamp,
                        self.previous_headers[csid],
                    )
                },
                Progress::Continues,
            )
        } else {
            (next, Progress::NoPreviousChunk(csid))
        }
    }

    /// The header after the timestamp field, which is absolute in a full header and a distance
    /// in the others. A chunk without the field repeats the last distance, if it is the first
    /// chunk of its message.
    pub open spec fn header_with_timestamp(self) -> ChunkHeader {
        let field = crate::wire::be24(self.buffer);
        match self.format {
            ChunkHeaderFormat::Full => ChunkHeader {
                timestamp: RtmpTimestamp { value: field as u32 },
                ..self.header
            },
            ChunkHeaderFormat::Empty => if self.payload.data.len() == 0 {
                ChunkHeader {
                    timestamp: self.header.timestamp.offset(self.header.timestamp_delta as int),
                    ..self.header
                }
            } else {
                self.header
            },
            _ => ChunkHeader {
                timestamp: self.header.timestamp.offset(field),
                timestamp_delta: field as u32,
                ..self.header
            },
        }
    }

    /// The header after the message length field.
    pub open spec fn header_with_length(self) -> ChunkHeader {
        if self.format.names_message() {
            ChunkHeader {
                message_length: crate::wire::be24(self.buffer) as u32,
                ..self.header
            }
        } else {
            self.header
        }
    }

    /// The header after the message type field.
    pub open spec fn header_with_type_id(self) -> ChunkHeader {
        if self.format.names_message() {
            ChunkHeader { message_type_id: self.buffer[0], ..self.header }
        } else {
            self.header
        }
    }

    /// The header after the message stream id field.
    pub open spec fn header_with_stream_id(self) -> ChunkHeader {
        if self.format is Full {
            ChunkHeader {
                message_stream_id: crate::wire::le32(self.buffer) as u32,
                ..self.header
            }
        } else {
            self.header
        }
    }

    /// The header after the extended timestamp field. The placeholder in the three-byte field has
    /// been added to the timestamp already where it stood for a distance, so it is taken off.
    pub open spec fn header_with_extended_timestamp(self) -> ChunkHeader {
        let field = crate::wire::be32(self.buffer);
        if !self.expects_extended_timestamp() {
            self.header
        } else if self.format is Full {
            ChunkHeader { timestamp: RtmpTimestamp { value: field as u32 }, ..self.header }
        } else {
            ChunkHeader {
                timestamp: self.header.timestamp.offset(field - MAX_INITIAL_TIMESTAMP),
                timestamp_delta: field as u32,
                ..self.header
            }
        }
    }

    /// The message with the bytes of the chunk being read.
    pub open spec fn gathered(self) -> Message {
        Message {
            timestamp: self.header.timestamp,
            type_id: self.header.message_type_id,
            message_stream_id: self.header.message_stream_id,
            data: self.payload.data + self.buffer.take(self.chunk_data_len() as int),
        }
    }

    /// Reads the message bytes of a chunk, which ends it.
    pub open spec fn chunk_closed(self) -> (ReaderState, Progress) {
        let gathered = self.gathered();
        let complete = gathered.data.len() == self.header.message_length;
        let next = ReaderState {
            payload: if complete {
                Message::blank()
            } else {
                gathered
            },
            previous_headers: self.previous_headers.insert(
                self.header.chunk_stream_id,
                self.header,
            ),
            ..self.moved_to(ParseStage::Csid, ChunkHeader::blank(0))
        };
        if complete {
            (next, Progress::Delivers(gathered))
        } else {
            (next, Progress::Continues)
        }
    }

    /// Reads the next field, if all of it is buffered.
    pub open spec fn step(self) -> (ReaderState, Progress) {
        if self.buffer.len() < self.field_width() {
            (self.waiting(), Progress::NeedsBytes)
        } else {
            match self.stage {
                ParseStage::Csid => self.chunk_opened(),
                ParseStage::InitialTimestamp => (
                    self.moved_to(ParseStage::MessageLength, self.header_with_timestamp()),
                    Progress::Continues,
                ),
                ParseStage::MessageLength => (
                    self.moved_to(ParseStage::MessageTypeId, self.header_with_length()),
                    Progress::Continues,
                ),
                ParseStage::MessageTypeId => (
                    self.moved_to(ParseStage::MessageStreamId, self.header_with_type_id()),
                    Progress::Continues,
                ),
                ParseStage::MessageStreamId => (
                    self.moved_to(ParseStage::ExtendedTimestamp, self.header_with_stream_id()),
                    Progress::Continues,
                ),
                ParseStage::ExtendedTimestamp => (
                    self.moved_to(
                        ParseStage::MessagePayload,
                        self.header_with_extended_timestamp(),
                    ),
                    Progress::Continues,
                ),
                ParseStage::MessagePayload => self.chunk_closed(),
            }
        }
    }

    /// Reads the buffer as if the field at `stage` were next. A field that is not read leaves the
    /// reader at its own stage.
    pub open spec fn step_at(self, stage: ParseStage) -> (ReaderState, Progress) {
        let (next, progress) = (ReaderState { stage, ..self }).step();
        if progress is NeedsBytes || progress is NoPreviousChunk {
            (ReaderState { stage: self.stage, ..next }, progress)
        } else {
            (next, progress)
        }
    }

    /// At its own stage that is a step.
    pub proof fn lemma_step_at_own_stage(self)
        ensures
            self.step_at(self.stage) == self.step(),
    {
    }

    /// Reads fields until a message is complete, bytes are missing or a chunk cannot be read.
    pub open spec fn decoded(self) -> (ReaderState, Progress)
        decreases self.buffer.len(), self.stage.fields_left(),
    {
        let (next, progress) = self.step();
        if progress is Continues {
            next.decoded()
        } else {
            (next, progress)
        }
    }

    /// A message is never completed without getting further: bytes are read, or the chunk ends.
    pub proof fn lemma_delivery_gets_further(self)
        requires
            self.decoded().1 is Delivers,
        ensures
            self.decoded().0.buffer.len() <= self.buffer.len(),
            self.decoded().0.buffer.len() < self.buffer.len()
                || self.decoded().0.stage.fields_left() < self.stage.fields_left(),
        decreases self.buffer.len(), self.stage.fields_left(),
    {
        let (next, progress) = self.step();
        if progress is Continues {
            next.lemma_delivery_gets_further();
        }
    }

    /// Reads all messages that the buffer completes: the reader that is left, the messages in
    /// the order in which they are complete, and what keeps the reader from going on.
    pub open spec fn drained(self) -> (ReaderState, Seq<Message>, Progress)
        decreases self.buffer.len(), self.stage.fields_left(),
    {
        let (next, progress) = self.decoded();
        match progress {
            Progress::Delivers(message) => {
                proof {
                    self.lemma_delivery_gets_further();
                }
                let (last, later, end) = next.drained();
                (last, seq![message] + later, end)
            },
            _ => (next, Seq::empty(), progress),
        }
    }

    /// Is handed the pieces one after the other, and reads all messages after each.
    pub open spec fn drained_by_pieces(self, pieces: Seq<Seq<u8>>) -> (
        ReaderState,
        Seq<Message>,
        Progress,
    )
        decreases pieces.len(),
    {
        if pieces.len() == 0 {
            self.drained()
        } else {
            let (next, messages, _) = self.fed(pieces[0]).drained();
            let (last, later, end) = next.drained_by_pieces(pieces.drop_first());
            (last, messages + later, end)
        }
    }

    /// Whether a chunk of the chunk stream has been read, or is being read.
    pub open spec fn knows(self, csid: u32) -> bool {
        ||| self.previous_headers.contains_key(csid)
        ||| !(self.stage is Csid) && self.header.chunk_stream_id == csid
    }

    /// What holds of a reader at all times.
    pub open spec fn wf(self) -> bool {
        &&& self.max_chunk_size <= LARGEST_MAX_CHUNK_SIZE
        &&& forall|csid: u32| #[trigger]
            self.previous_headers.contains_key(csid) ==> {
                &&& self.previous_headers[csid].chunk_stream_id == csid
                &&& header_wf(self.previous_headers[csid])
            }
        &&& if self.stage is Csid {
            self.header == ChunkHeader::blank(0)
        } else {
            header_wf(self.header)
        }
        &&& self.at_undecided_timestamp() ==> if self.format is Full {
            self.header.timestamp.value <= MAX_INITIAL_TIMESTAMP
        } else if self.format is Empty {
            true
        } else {
            self.header.timestamp_delta <= MAX_INITIAL_TIMESTAMP
        }
    }

    /// Whether the timestamp field has been read, but not the extended one.
    pub open spec fn at_undecided_timestamp(self) -> bool {
        2 <= self.stage.fields_left() <= 5
    }
}

/// What holds of the header of every chunk: its fields have the ranges that they have on the wire.
pub open spec fn header_wf(header: ChunkHeader) -> bool {
    &&& 2 <= header.chunk_stream_id <= 65599
    &&& header.message_length < 0x100_0000
}

} // verus!
