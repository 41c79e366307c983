//! How messages are laid out as chunks: the bytes that a peer sends.
//!
//! Nothing here is executed. These definitions are what the reader's laws are stated against.

use crate::chunk_header::{ChunkHeader, ChunkHeaderFormat};
use crate::messages::Message;
use crate::model::MAX_INITIAL_TIMESTAMP;
use crate::time::RtmpTimestamp;
use vstd::prelude::*;

verus! {

/// `number` in three bytes, most significant byte first.
pub open spec fn be24_bytes(number: int) -> Seq<u8>
    recommends
        0 <= number < 0x100_0000,
{
    seq![(number / 0x1_0000) as u8, (number / 0x100 % 0x100) as u8, (number % 0x100) as u8]
}

/// `number` in four bytes, most significant byte first.
pub open spec fn be32_bytes(number: int) -> Seq<u8>
    recommends
        0 <= number < 0x1_0000_0000,
{
    seq![
        (number / 0x100_0000) as u8,
        (number / 0x1_0000 % 0x100) as u8,
        (number / 0x100 % 0x100) as u8,
        (number % 0x100) as u8,
    ]
}

/// `number` in four bytes, least significant byte first.
pub open spec fn le32_bytes(number: int) -> Seq<u8>
    recommends
        0 <= number < 0x1_0000_0000,
{
    seq![
        (number % 0x100) as u8,
        (number / 0x100 % 0x100) as u8,
        (number / 0x1_0000 % 0x100) as u8,
        (number / 0x100_0000) as u8,
    ]
}

/// The two top bits of the first byte of a chunk, as the number that they add to it.
pub open spec fn format_bits(format: ChunkHeaderFormat) -> int {
    match format {
        ChunkHeaderFormat::Full => 0,
        ChunkHeaderFormat::TimeDeltaWithoutMessageStreamId => 64,
        ChunkHeaderFormat::TimeDeltaOnly => 128,
        ChunkHeaderFormat::Empty => 192,
    }
}

/// Whether a chunk stream id can be written in `width` bytes. Some ids can be written in two or
/// in three.
pub open spec fn csid_fits(csid: u32, width: nat) -> bool {
    ||| width == 1 && 2 <= csid <= 63
    ||| width == 2 && 64 <= csid <= 319
    ||| width == 3 && 64 <= csid <= 65599
}

/// Format and chunk stream id in `width` bytes, with which every chunk starts.
pub open spec fn basic_header(format: ChunkHeaderFormat, csid: u32, width: nat) -> Seq<u8>
    recommends
        csid_fits(csid, width),
{
    if width == 1 {
        seq![(format_bits(format) + csid) as u8]
    } else if width == 2 {
        seq![format_bits(format) as u8, (csid - 64) as u8]
    } else {
        seq![
            (format_bits(format) + 1) as u8,
            ((csid - 64) % 256) as u8,
            ((csid - 64) / 256) as u8,
        ]
    }
}

/// The three-byte field for a timestamp or a time delta.
pub open spec fn time_field(time: u32) -> Seq<u8> {
    be24_bytes(
        if time < MAX_INITIAL_TIMESTAMP {
            time as int
        } else {
            MAX_INITIAL_TIMESTAMP as int
        },
    )
}

/// The extended field for a timestamp or a time delta, which is there only if the three-byte
/// field cannot hold it.
pub open spec fn extended_time_field(time: u32) -> Seq<u8> {
    if time < MAX_INITIAL_TIMESTAMP {
        Seq::empty()
    } else {
        be32_bytes(time as int)
    }
}

/// What the first chunk of a message spells out about it.
pub enum Announcement {
    /// Everything.
    Full { timestamp: u32, type_id: u8, message_stream_id: u32 },
    /// All but the message stream.
    SameMessageStream { delta: u32, type_id: u8 },
    /// How long after the previous message it is.
    SameMessageKind { delta: u32 },
    /// Nothing.
    Repetition,
}

impl Announcement {
    /// The chunk format that holds the announcement.
    pub open spec fn format(self) -> ChunkHeaderFormat {
        match self {
            Announcement::Full { .. } => ChunkHeaderFormat::Full,
            Announcement::SameMessageStream { .. } =>
                ChunkHeaderFormat::TimeDeltaWithoutMessageStreamId,
            Announcement::SameMessageKind { .. } => ChunkHeaderFormat::TimeDeltaOnly,
            Announcement::Repetition => ChunkHeaderFormat::Empty,
        }
    }

    /// The header fields for a message of `length` bytes.
    pub open spec fn bytes(self, length: int) -> Seq<u8> {
        match self {
            Announcement::Full { timestamp, type_id, message_stream_id } => time_field(timestamp)
                + be24_bytes(length) + seq![type_id] + le32_bytes(message_stream_id as int)
                + extended_time_field(timestamp),
            Announcement::SameMessageStream { delta, type_id } => time_field(delta) + be24_bytes(
                length,
            ) + seq![type_id] + extended_time_field(delta),
            Announcement::SameMessageKind { delta } => time_field(delta) + extended_time_field(
                delta,
            ),
            Announcement::Repetition => Seq::empty(),
        }
    }

    /// The header of a message of `length` bytes, on a chunk stream whose last header is
    /// `previous`.
    pub open spec fn header(self, csid: u32, length: u32, previous: ChunkHeader) -> ChunkHeader {
        match self {
            Announcement::Full { timestamp, type_id, message_stream_id } => ChunkHeader {
                chunk_stream_id: csid,
                timestamp: RtmpTimestamp { value: timestamp },
                timestamp_delta: 0,
                message_length: length,
                message_type_id: type_id,
                message_stream_id,
            },
            Announcement::SameMessageStream { delta, type_id } => ChunkHeader {
                timestamp: previous.timestamp.offset(delta as int),
                timestamp_delta: delta,
                message_length: length,
                message_type_id: type_id,
                ..previous
            },
            Announcement::SameMessageKind { delta } => ChunkHeader {
                timestamp: previous.timestamp.offset(delta as int),
                timestamp_delta: delta,
                ..previous
            },
            Announcement::Repetition => ChunkHeader {
                timestamp: previous.timestamp.offset(previous.timestamp_delta as int),
                ..previous
            },
        }
    }
}

/// The contents of a message, cut into chunks: an empty chunk header stands between any two
/// pieces of the maximum chunk size.
pub open spec fn chunked(data: Seq<u8>, csid: u32, id_width: nat, max_chunk_size: nat) -> Seq<u8>
    decreases data.len(),
{
    if data.len() <= max_chunk_size || max_chunk_size == 0 {
        data
    } else {
        data.take(max_chunk_size as int) + basic_header(ChunkHeaderFormat::Empty, csid, id_width)
            + chunked(data.skip(max_chunk_size as int), csid, id_width, max_chunk_size)
    }
}

/// A message on its way: what its first chunk announces, and its contents.
pub struct Sending {
    pub csid: u32,
    /// Number of bytes in which each of its chunks writes the chunk stream id.
    pub id_width: nat,
    pub announcement: Announcement,
    pub data: Seq<u8>,
}

impl Sending {
    /// Whether the message can be sent after messages that left `headers` behind: the chunk
    /// stream id and the length can be written down, and what is left out can be taken over.
    pub open spec fn possible_after(self, headers: Map<u32, ChunkHeader>) -> bool {
        &&& csid_fits(self.csid, self.id_width)
        &&& self.data.len() < 0x100_0000
        &&& !(self.announcement is Full) ==> {
            &&& headers.contains_key(self.csid)
            &&& headers[self.csid].chunk_stream_id == self.csid
        }
        &&& self.announcement is SameMessageKind || self.announcement is Repetition
            ==> self.data.len() == headers[self.csid].message_length
    }

    /// The bytes that carry the message.
    pub open spec fn bytes(self, max_chunk_size: nat) -> Seq<u8> {
        basic_header(self.announcement.format(), self.csid, self.id_width)
            + self.announcement.bytes(self.data.len() as int) + chunked(
            self.data,
            self.csid,
            self.id_width,
            max_chunk_size,
        )
    }

    /// The header of the message.
    pub open spec fn header_after(self, headers: Map<u32, ChunkHeader>) -> ChunkHeader {
        self.announcement.header(self.csid, self.data.len() as u32, headers[self.csid])
    }

    /// The message itself.
    pub open spec fn message_after(self, headers: Map<u32, ChunkHeader>) -> Message {
        let header = self.header_after(headers);
        Message {
            timestamp: header.timestamp,
            type_id: header.message_type_id,
            message_stream_id: header.message_stream_id,
            data: self.data,
        }
    }

    /// The last headers of all chunk streams once the message has been sent.
    pub open spec fn headers_after(self, headers: Map<u32, ChunkHeader>) -> Map<
        u32,
        ChunkHeader,
    > {
        headers.insert(self.csid, self.header_after(headers))
    }
}

/// Whether each of the messages can be sent once those before it have been.
pub open spec fn all_possible_after(
    sendings: Seq<Sending>,
    headers: Map<u32, ChunkHeader>,
) -> bool
    decreases sendings.len(),
{
    sendings.len() > 0 ==> {
        &&& sendings[0].possible_after(headers)
        &&& all_possible_after(sendings.drop_first(), sendings[0].headers_after(headers))
    }
}

/// The bytes that carry the messages, one after the other.
pub open spec fn all_bytes(sendings: Seq<Sending>, max_chunk_size: nat) -> Seq<u8>
    decreases sendings.len(),
{
    if sendings.len() == 0 {
        Seq::empty()
    } else {
        sendings[0].bytes(max_chunk_size) + all_bytes(sendings.drop_first(), max_chunk_size)
    }
}

/// The messages themselves.
pub open spec fn all_messages_after(
    sendings: Seq<Sending>,
    headers: Map<u32, ChunkHeader>,
) -> Seq<Message>
    decreases sendings.len(),
{
    if sendings.len() == 0 {
        Seq::empty()
    } else {
        seq![sendings[0].message_after(headers)] + all_messages_after(
            sendings.drop_first(),
            sendings[0].headers_after(headers),
        )
    }
}

/// The last headers of all chunk streams once the messages have been sent.
pub open spec fn all_headers_after(
    sendings: Seq<Sending>,
    headers: Map<u32, ChunkHeader>,
) -> Map<u32, ChunkHeader>
    decreases sendings.len(),
{
    if sendings.len() == 0 {
        headers
    } else {
        all_headers_after(sendings.drop_first(), sendings[0].headers_after(headers))
    }
}

} // verus!
