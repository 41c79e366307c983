//! What is sent is what is read: the reader undoes the layout of messages as chunks.

use crate::chunk_header::{ChunkHeader, ChunkHeaderFormat};
use crate::encoding::{Announcement, Sending};
use crate::messages::Message;
use crate::model::{ParseStage, Progress, ReaderState, MAX_INITIAL_TIMESTAMP};
use crate::time::RtmpTimestamp;
use vstd::prelude::*;

verus! {

/// A number written in three bytes, most significant first, is read back.
pub proof fn law_be24_is_read_back(number: int, rest: Seq<u8>)
    requires
        0 <= number < 0x100_0000,
    ensures
        crate::wire::be24(crate::encoding::be24_bytes(number) + rest) == number,
{
}

/// A number written in four bytes, most significant first, is read back.
pub proof fn law_be32_is_read_back(number: int, rest: Seq<u8>)
    requires
        0 <= number < 0x1_0000_0000,
    ensures
        crate::wire::be32(crate::encoding::be32_bytes(number) + rest) == number,
{
}

/// A number written in four bytes, least significant first, is read back.
pub proof fn law_le32_is_read_back(number: int, rest: Seq<u8>)
    requires
        0 <= number < 0x1_0000_0000,
    ensures
        crate::wire::le32(crate::encoding::le32_bytes(number) + rest) == number,
{
}

/// Format and chunk stream id are read back, whatever follows them, in each of the widths in
/// which the id can be written.
pub proof fn law_basic_header_is_read_back(
    format: ChunkHeaderFormat,
    csid: u32,
    width: nat,
    rest: Seq<u8>,
)
    requires
        crate::encoding::csid_fits(csid, width),
    ensures
        ({
            let bytes = crate::encoding::basic_header(format, csid, width) + rest;
            &&& crate::model::basic_header_len(bytes) == width
            &&& crate::model::format_of(bytes[0]) == format
            &&& crate::model::csid_of(bytes) == csid
            &&& bytes.skip(width as int) == rest
        }),
{
    let bytes = crate::encoding::basic_header(format, csid, width) + rest;
    assert(bytes.skip(width as int) =~= rest);
}

/// The reader in front of the field at `stage`, with `header` known and `buffer` left.
spec fn moved(
    reader: ReaderState,
    stage: ParseStage,
    header: ChunkHeader,
    buffer: Seq<u8>,
) -> ReaderState {
    ReaderState { stage, header, buffer, ..reader }
}

/// Whether reading on from `reader` comes to the same as reading on from `next`.
#[verifier::opaque]
spec fn leads_to(reader: ReaderState, next: ReaderState) -> bool {
    reader.decoded() == next.decoded()
}

proof fn lemma_leads_on(reader: ReaderState, between: ReaderState, next: ReaderState)
    requires
        leads_to(reader, between),
        leads_to(between, next),
    ensures
        leads_to(reader, next),
{
    reveal(leads_to);
}

/// Whether reading on from `reader` completes `message` and leaves `next`.
#[verifier::opaque]
spec fn completes(reader: ReaderState, message: Message, next: ReaderState) -> bool {
    reader.decoded() == (next, Progress::Delivers(message))
}

proof fn lemma_leads_to_completion(
    reader: ReaderState,
    between: ReaderState,
    message: Message,
    next: ReaderState,
)
    requires
        leads_to(reader, between),
        completes(between, message, next),
    ensures
        completes(reader, message, next),
{
    reveal(leads_to);
    reveal(completes);
}

proof fn lemma_step_leads_on(reader: ReaderState, next: ReaderState)
    requires
        reader.step() == (next, Progress::Continues),
    ensures
        leads_to(reader, next),
{
    reveal(leads_to);
}

/// What the three-byte field holds for `time`.
spec fn clipped(time: u32) -> u32 {
    if time < MAX_INITIAL_TIMESTAMP {
        time
    } else {
        MAX_INITIAL_TIMESTAMP
    }
}

proof fn lemma_timestamp_is_read(
    reader: ReaderState,
    time: u32,
    rest: Seq<u8>,
) -> (next: ReaderState)
    requires
        reader.stage is InitialTimestamp,
        !(reader.format is Empty),
        reader.buffer == crate::encoding::time_field(time) + rest,
    ensures
        leads_to(reader, next),
        next == moved(
            reader,
            ParseStage::MessageLength,
            if reader.format is Full {
                ChunkHeader {
                    timestamp: RtmpTimestamp { value: clipped(time) },
                    ..reader.header
                }
            } else {
                ChunkHeader {
                    timestamp: reader.header.timestamp.offset(clipped(time) as int),
                    timestamp_delta: clipped(time),
                    ..reader.header
                }
            },
            rest,
        ),
{
    law_be24_is_read_back(clipped(time) as int, rest);
    assert(reader.buffer.skip(3) =~= rest);
    lemma_step_leads_on(reader, reader.step().0);
    reader.step().0
}

proof fn lemma_length_is_read(
    reader: ReaderState,
    length: u32,
    rest: Seq<u8>,
) -> (next: ReaderState)
    requires
        reader.stage is MessageLength,
        reader.format.names_message(),
        length < 0x100_0000,
        reader.buffer == crate::encoding::be24_bytes(length as int) + rest,
    ensures
        leads_to(reader, next),
        next == moved(
            reader,
            ParseStage::MessageTypeId,
            ChunkHeader { message_length: length, ..reader.header },
            rest,
        ),
{
    law_be24_is_read_back(length as int, rest);
    assert(reader.buffer.skip(3) =~= rest);
    lemma_step_leads_on(reader, reader.step().0);
    reader.step().0
}

proof fn lemma_type_id_is_read(
    reader: ReaderState,
    type_id: u8,
    rest: Seq<u8>,
) -> (next: ReaderState)
    requires
        reader.stage is MessageTypeId,
        reader.format.names_message(),
        reader.buffer == seq![type_id] + rest,
    ensures
        leads_to(reader, next),
        next == moved(
            reader,
            ParseStage::MessageStreamId,
            ChunkHeader { message_type_id: type_id, ..reader.header },
            rest,
        ),
{
    assert(reader.buffer.skip(1) =~= rest);
    lemma_step_leads_on(reader, reader.step().0);
    reader.step().0
}

proof fn lemma_stream_id_is_read(
    reader: ReaderState,
    stream_id: u32,
    rest: Seq<u8>,
) -> (next: ReaderState)
    requires
        reader.stage is MessageStreamId,
        reader.format is Full,
        reader.buffer == crate::encoding::le32_bytes(stream_id as int) + rest,
    ensures
        leads_to(reader, next),
        next == moved(
            reader,
            ParseStage::ExtendedTimestamp,
            ChunkHeader { message_stream_id: stream_id, ..reader.header },
            rest,
        ),
{
    law_le32_is_read_back(stream_id as int, rest);
    assert(reader.buffer.skip(4) =~= rest);
    lemma_step_leads_on(reader, reader.step().0);
    reader.step().0
}

/// With the extended field the header has the whole time: `start` is where a distance counts from.
proof fn lemma_extended_timestamp_is_read(
    reader: ReaderState,
    start: RtmpTimestamp,
    time: u32,
    rest: Seq<u8>,
) -> (next: ReaderState)
    requires
        reader.stage is ExtendedTimestamp,
        !(reader.format is Empty),
        reader.buffer == crate::encoding::extended_time_field(time) + rest,
        if reader.format is Full {
            reader.header.timestamp.value == clipped(time)
        } else {
            &&& reader.header.timestamp == start.offset(clipped(time) as int)
            &&& reader.header.timestamp_delta == clipped(time)
        },
    ensures
        leads_to(reader, next),
        next == moved(
            reader,
            ParseStage::MessagePayload,
            if reader.format is Full {
                ChunkHeader { timestamp: RtmpTimestamp { value: time }, ..reader.header }
            } else {
                ChunkHeader {
                    timestamp: start.offset(time as int),
                    timestamp_delta: time,
                    ..reader.header
                }
            },
            rest,
        ),
{
    if time < MAX_INITIAL_TIMESTAMP {
        assert(reader.buffer.skip(0) =~= rest);
    } else {
        law_be32_is_read_back(time as int, rest);
        assert(reader.buffer.skip(4) =~= rest);
        start.law_offsets_add_up(MAX_INITIAL_TIMESTAMP as int, time - MAX_INITIAL_TIMESTAMP);
    }
    lemma_step_leads_on(reader, reader.step().0);
    reader.step().0
}

/// A field that a chunk leaves out is passed by.
proof fn lemma_absent_field_is_passed(reader: ReaderState, stage: ParseStage) -> (next: ReaderState)
    requires
        reader.field_width() == 0,
        match reader.stage {
            ParseStage::MessageLength => stage is MessageTypeId,
            ParseStage::MessageTypeId => stage is MessageStreamId,
            ParseStage::MessageStreamId => stage is ExtendedTimestamp,
            ParseStage::ExtendedTimestamp => stage is MessagePayload,
            _ => false,
        },
    ensures
        leads_to(reader, next),
        next == moved(reader, stage, reader.header, reader.buffer),
{
    assert(reader.buffer.skip(0) =~= reader.buffer);
    lemma_step_leads_on(reader, reader.step().0);
    reader.step().0
}

/// A chunk without header fields keeps the header, but for the timestamp if a message starts.
proof fn lemma_empty_header_is_read(reader: ReaderState) -> (next: ReaderState)
    requires
        reader.stage is InitialTimestamp,
        reader.format is Empty,
    ensures
        leads_to(reader, next),
        next == moved(
            reader,
            ParseStage::MessagePayload,
            if reader.payload.data.len() == 0 {
                ChunkHeader {
                    timestamp: reader.header.timestamp.offset(
                        reader.header.timestamp_delta as int,
                    ),
                    ..reader.header
                }
            } else {
                reader.header
            },
            reader.buffer,
        ),
{
    let reader1 = reader.step().0;
    assert(reader1.buffer =~= reader.buffer);
    lemma_step_leads_on(reader, reader1);
    let reader2 = lemma_absent_field_is_passed(reader1, ParseStage::MessageTypeId);
    let reader3 = lemma_absent_field_is_passed(reader2, ParseStage::MessageStreamId);
    let reader4 = lemma_absent_field_is_passed(reader3, ParseStage::ExtendedTimestamp);
    let reader5 = lemma_absent_field_is_passed(reader4, ParseStage::MessagePayload);
    lemma_leads_on(reader, reader1, reader2);
    lemma_leads_on(reader, reader2, reader3);
    lemma_leads_on(reader, reader3, reader4);
    lemma_leads_on(reader, reader4, reader5);
    reader5
}

/// The header fields of the first chunk of a message are read as they were announced.
proof fn lemma_announcement_is_read(
    reader: ReaderState,
    announcement: Announcement,
    csid: u32,
    length: u32,
    previous: ChunkHeader,
    rest: Seq<u8>,
) -> (next: ReaderState)
    requires
        reader.stage is InitialTimestamp,
        reader.format == announcement.format(),
        reader.header == if announcement is Full {
            ChunkHeader::blank(csid)
        } else {
            previous
        },
        reader.payload.data.len() == 0,
        length < 0x100_0000,
        reader.buffer == announcement.bytes(length as int) + rest,
    ensures
        leads_to(reader, next),
        next == moved(
            reader,
            ParseStage::MessagePayload,
            announcement.header(csid, length, previous),
            rest,
        ),
{
    let start = previous.timestamp;
    let length_field = crate::encoding::be24_bytes(length as int);
    match announcement {
        Announcement::Full { timestamp, type_id, message_stream_id } => {
            let extended = crate::encoding::extended_time_field(timestamp) + rest;
            let stream = crate::encoding::le32_bytes(message_stream_id as int) + extended;
            let type_and_on = seq![type_id] + stream;
            let length_and_on = length_field + type_and_on;
            assert(reader.buffer =~= crate::encoding::time_field(timestamp) + length_and_on);
            let reader1 = lemma_timestamp_is_read(reader, timestamp, length_and_on);
            let reader2 = lemma_length_is_read(reader1, length, type_and_on);
            let reader3 = lemma_type_id_is_read(reader2, type_id, stream);
            let reader4 = lemma_stream_id_is_read(reader3, message_stream_id, extended);
            let reader5 = lemma_extended_timestamp_is_read(reader4, start, timestamp, rest);
            lemma_leads_on(reader, reader1, reader2);
            lemma_leads_on(reader, reader2, reader3);
            lemma_leads_on(reader, reader3, reader4);
            lemma_leads_on(reader, reader4, reader5);
            reader5
        },
        Announcement::SameMessageStream { delta, type_id } => {
            let extended = crate::encoding::extended_time_field(delta) + rest;
            let type_and_on = seq![type_id] + extended;
            let length_and_on = length_field + type_and_on;
            assert(reader.buffer =~= crate::encoding::time_field(delta) + length_and_on);
            let reader1 = lemma_timestamp_is_read(reader, delta, length_and_on);
            let reader2 = lemma_length_is_read(reader1, length, type_and_on);
            let reader3 = lemma_type_id_is_read(reader2, type_id, extended);
            let reader4 = lemma_absent_field_is_passed(reader3, ParseStage::ExtendedTimestamp);
            let reader5 = lemma_extended_timestamp_is_read(reader4, start, delta, rest);
            lemma_leads_on(reader, reader1, reader2);
            lemma_leads_on(reader, reader2, reader3);
            lemma_leads_on(reader, reader3, reader4);
            lemma_leads_on(reader, reader4, reader5);
            reader5
        },
        Announcement::SameMessageKind { delta } => {
            let extended = crate::encoding::extended_time_field(delta) + rest;
            assert(reader.buffer =~= crate::encoding::time_field(delta) + extended);
            let reader1 = lemma_timestamp_is_read(reader, delta, extended);
            let reader2 = lemma_absent_field_is_passed(reader1, ParseStage::MessageTypeId);
            let reader3 = lemma_absent_field_is_passed(reader2, ParseStage::MessageStreamId);
            let reader4 = lemma_absent_field_is_passed(reader3, ParseStage::ExtendedTimestamp);
            let reader5 = lemma_extended_timestamp_is_read(reader4, start, delta, rest);
            lemma_leads_on(reader, reader1, reader2);
            lemma_leads_on(reader, reader2, reader3);
            lemma_leads_on(reader, reader3, reader4);
            lemma_leads_on(reader, reader4, reader5);
            reader5
        },
        Announcement::Repetition => {
            assert(reader.buffer =~= rest);
            lemma_empty_header_is_read(reader)
        },
    }
}

/// Format and chunk stream id are read, and what the chunk may leave out is recalled.
proof fn lemma_basic_header_is_read(
    reader: ReaderState,
    format: ChunkHeaderFormat,
    csid: u32,
    id_width: nat,
    rest: Seq<u8>,
) -> (next: ReaderState)
    requires
        reader.stage is Csid,
        crate::encoding::csid_fits(csid, id_width),
        format is Full || reader.previous_headers.contains_key(csid),
        reader.buffer == crate::encoding::basic_header(format, csid, id_width) + rest,
    ensures
        leads_to(reader, next),
        next == (ReaderState {
            format,
            header: if format is Full {
                ChunkHeader::blank(csid)
            } else {
                reader.previous_headers[csid]
            },
            stage: ParseStage::InitialTimestamp,
            buffer: rest,
            previous_headers: if format is Full {
                reader.previous_headers
            } else {
                reader.previous_headers.remove(csid)
            },
            ..reader
        }),
{
    law_basic_header_is_read_back(format, csid, id_width, rest);
    lemma_step_leads_on(reader, reader.step().0);
    reader.step().0
}

/// The reader behind the chunk whose message bytes it is in front of, if they complete no message.
spec fn behind_chunk(reader: ReaderState, payload: Message, buffer: Seq<u8>) -> ReaderState {
    ReaderState {
        header: ChunkHeader::blank(0),
        stage: ParseStage::Csid,
        payload,
        buffer,
        previous_headers: reader.previous_headers.insert(
            reader.header.chunk_stream_id,
            reader.header,
        ),
        ..reader
    }
}

/// The message that `header` describes, with contents `data`.
spec fn message_of(header: ChunkHeader, data: Seq<u8>) -> Message {
    Message {
        timestamp: header.timestamp,
        type_id: header.message_type_id,
        message_stream_id: header.message_stream_id,
        data,
    }
}

/// A full chunk of a longer message is added to what has been put together.
proof fn lemma_full_chunk_is_read(
    reader: ReaderState,
    piece: Seq<u8>,
    rest: Seq<u8>,
) -> (next: ReaderState)
    requires
        reader.stage is MessagePayload,
        piece.len() == reader.max_chunk_size,
        reader.payload.data.len() + piece.len() < reader.header.message_length,
        reader.buffer == piece + rest,
    ensures
        leads_to(reader, next),
        next == behind_chunk(reader, message_of(reader.header, reader.payload.data + piece), rest),
{
    assert(reader.chunk_data_len() == piece.len());
    assert(reader.buffer.take(piece.len() as int) =~= piece);
    assert(reader.buffer.skip(piece.len() as int) =~= rest);
    lemma_step_leads_on(reader, reader.step().0);
    reader.step().0
}

/// The last chunk of a message completes it.
proof fn lemma_last_chunk_is_read(reader: ReaderState, piece: Seq<u8>, rest: Seq<u8>)
    requires
        reader.stage is MessagePayload,
        piece.len() <= reader.max_chunk_size,
        reader.payload.data.len() + piece.len() == reader.header.message_length,
        reader.payload.data.len() > 0 ==> reader.header.message_length > reader.max_chunk_size,
        reader.buffer == piece + rest,
    ensures
        completes(
            reader,
            message_of(reader.header, reader.payload.data + piece),
            behind_chunk(reader, Message::blank(), rest),
        ),
{
    reveal(completes);
    assert(reader.chunk_data_len() == piece.len());
    assert(reader.buffer.take(piece.len() as int) =~= piece);
    assert(reader.buffer.skip(piece.len() as int) =~= rest);
}

/// The chunk format that a message ends in, if it starts in `format`.
pub open spec fn last_format(
    format: ChunkHeaderFormat,
    data: Seq<u8>,
    max_chunk_size: nat,
) -> ChunkHeaderFormat {
    if data.len() <= max_chunk_size {
        format
    } else {
        ChunkHeaderFormat::Empty
    }
}

/// A reader in front of message bytes puts the message together, however many chunks it takes.
proof fn lemma_chunked_data_is_read(
    reader: ReaderState,
    id_width: nat,
    data: Seq<u8>,
    rest: Seq<u8>,
)
    requires
        reader.stage is MessagePayload,
        crate::encoding::csid_fits(reader.header.chunk_stream_id, id_width),
        reader.payload.data.len() + data.len() == reader.header.message_length,
        reader.payload.data.len() > 0 ==> reader.header.message_length > reader.max_chunk_size,
        data.len() > 0 ==> reader.max_chunk_size > 0,
        reader.buffer == crate::encoding::chunked(
            data,
            reader.header.chunk_stream_id,
            id_width,
            reader.max_chunk_size,
        ) + rest,
    ensures
        completes(
            reader,
            message_of(reader.header, reader.payload.data + data),
            ReaderState {
                format: last_format(reader.format, data, reader.max_chunk_size),
                ..behind_chunk(reader, Message::blank(), rest)
            },
        ),
    decreases data.len(),
{
    let csid = reader.header.chunk_stream_id;
    let max = reader.max_chunk_size as int;
    if data.len() <= max {
        lemma_last_chunk_is_read(reader, data, rest);
    } else {
        let empty = ChunkHeaderFormat::Empty;
        let others = data.skip(max);
        let later = crate::encoding::chunked(others, csid, id_width, reader.max_chunk_size) + rest;
        let header_and_on = crate::encoding::basic_header(empty, csid, id_width) + later;
        assert(reader.buffer =~= data.take(max) + header_and_on);
        let closed = lemma_full_chunk_is_read(reader, data.take(max), header_and_on);
        let opened = lemma_basic_header_is_read(closed, empty, csid, id_width, later);
        let next = lemma_empty_header_is_read(opened);
        lemma_chunked_data_is_read(next, id_width, others, rest);
        assert(next.previous_headers.insert(csid, reader.header)
            =~= reader.previous_headers.insert(csid, reader.header));
        assert(next.payload.data + others =~= reader.payload.data + data);
        lemma_leads_on(reader, closed, opened);
        lemma_leads_on(reader, opened, next);
        lemma_leads_to_completion(
            reader,
            next,
            message_of(reader.header, reader.payload.data + data),
            ReaderState { format: empty, ..behind_chunk(reader, Message::blank(), rest) },
        );
    }
}

/// A chunk without header fields keeps the header of its chunk stream. Only if it is the first of
/// its message does it count the last time delta once more: a message that is split does not get
/// later with each of its chunks.
pub proof fn law_empty_header_counts_the_delta_once(reader: ReaderState)
    requires
        reader.stage is InitialTimestamp,
        reader.format is Empty,
    ensures
        reader.payload.data.len() == 0 ==> reader.decoded() == (ReaderState {
            stage: ParseStage::MessagePayload,
            header: ChunkHeader {
                timestamp: reader.header.timestamp.offset(reader.header.timestamp_delta as int),
                ..reader.header
            },
            ..reader
        }).decoded(),
        reader.payload.data.len() > 0 ==> reader.decoded() == (ReaderState {
            stage: ParseStage::MessagePayload,
            ..reader
        }).decoded(),
{
    let next = lemma_empty_header_is_read(reader);
    reveal(leads_to);
}

/// The reader once `sent` has been read: its chunk stream has its header, and nothing of a message
/// is put together.
pub open spec fn reader_after(reader: ReaderState, sent: Sending) -> ReaderState {
    ReaderState {
        format: last_format(sent.announcement.format(), sent.data, reader.max_chunk_size),
        header: ChunkHeader::blank(0),
        payload: Message::blank(),
        previous_headers: sent.headers_after(reader.previous_headers),
        ..reader
    }
}

/// Whether a message that is sent now is read back: the reader is in front of a chunk, and has
/// nothing of another message put together.
pub open spec fn between_messages(reader: ReaderState) -> bool {
    &&& reader.stage is Csid
    &&& reader.payload.data.len() == 0
    &&& reader.buffer.len() == 0
}

/// A message that is sent is read back, with its timestamp, type, message stream and contents,
/// whichever chunk format its first chunk has and however many chunks it takes. In particular a
/// time delta counts once for a message, and not again for each of its chunks. What follows on
/// the wire is left in the buffer, and all other chunk streams keep their headers.
pub proof fn law_message_is_read_back(reader: ReaderState, sent: Sending, rest: Seq<u8>)
    requires
        between_messages(reader),
        sent.possible_after(reader.previous_headers),
        sent.data.len() > 0 ==> reader.max_chunk_size > 0,
    ensures
        reader.fed(sent.bytes(reader.max_chunk_size) + rest).decoded() == (
            reader_after(reader, sent).fed(rest),
            Progress::Delivers(sent.message_after(reader.previous_headers)),
        ),
{
    let format = sent.announcement.format();
    let length = sent.data.len() as u32;
    let previous = reader.previous_headers[sent.csid];
    let data = crate::encoding::chunked(
        sent.data,
        sent.csid,
        sent.id_width,
        reader.max_chunk_size,
    ) + rest;
    let fields = sent.announcement.bytes(length as int) + data;
    let start = reader.fed(sent.bytes(reader.max_chunk_size) + rest);
    assert(start.buffer =~= crate::encoding::basic_header(format, sent.csid, sent.id_width)
        + fields);
    let opened = lemma_basic_header_is_read(start, format, sent.csid, sent.id_width, fields);
    let next = lemma_announcement_is_read(
        opened,
        sent.announcement,
        sent.csid,
        length,
        previous,
        data,
    );
    lemma_chunked_data_is_read(next, sent.id_width, sent.data, rest);
    lemma_leads_on(start, opened, next);
    let last = reader_after(reader, sent).fed(rest);
    assert(next.payload.data + sent.data =~= sent.data);
    assert(next.previous_headers.insert(sent.csid, next.header) =~= last.previous_headers);
    assert(last.buffer =~= rest);
    lemma_leads_to_completion(start, next, sent.message_after(reader.previous_headers), last);
    reveal(completes);
}

/// A chunk that leaves out header fields, on a chunk stream without a previous chunk, is refused:
/// with an error that names the chunk stream, and with nothing read.
pub proof fn law_chunk_without_a_previous_one_is_refused(
    reader: ReaderState,
    format: ChunkHeaderFormat,
    csid: u32,
    id_width: nat,
    rest: Seq<u8>,
)
    requires
        reader.stage is Csid,
        reader.buffer == crate::encoding::basic_header(format, csid, id_width) + rest,
        crate::encoding::csid_fits(csid, id_width),
        !(format is Full),
        !reader.previous_headers.contains_key(csid),
    ensures
        reader.decoded() == (
            ReaderState { format, ..reader },
            Progress::NoPreviousChunk(csid),
        ),
{
    law_basic_header_is_read_back(format, csid, id_width, rest);
}

/// Messages that are sent one after the other are read back in that order, and no others. The
/// reader then waits for bytes, with none left. It has the headers that the messages left behind
/// and its maximum chunk size, so that further messages are read back in the same way.
pub proof fn law_messages_are_read_back(reader: ReaderState, sendings: Seq<Sending>)
    requires
        between_messages(reader),
        crate::encoding::all_possible_after(sendings, reader.previous_headers),
        reader.max_chunk_size > 0 || forall|i: int|
            0 <= i < sendings.len() ==> (#[trigger] sendings[i]).data.len() == 0,
    ensures
        ({
            let bytes = crate::encoding::all_bytes(sendings, reader.max_chunk_size);
            let (last, messages, end) = reader.fed(bytes).drained();
            &&& messages == crate::encoding::all_messages_after(sendings, reader.previous_headers)
            &&& end is NeedsBytes
            &&& between_messages(last)
            &&& last.max_chunk_size == reader.max_chunk_size
            &&& last.previous_headers == crate::encoding::all_headers_after(
                sendings,
                reader.previous_headers,
            )
        }),
    decreases sendings.len(),
{
    let bytes = crate::encoding::all_bytes(sendings, reader.max_chunk_size);
    if sendings.len() == 0 {
        assert(reader.fed(bytes) =~= reader);
    } else {
        let sent = sendings[0];
        let others = sendings.drop_first();
        let rest = crate::encoding::all_bytes(others, reader.max_chunk_size);
        let next = reader_after(reader, sent);
        law_message_is_read_back(reader, sent, rest);
        law_messages_are_read_back(next, others);
    }
}

} // verus!
