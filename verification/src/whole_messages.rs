//! From the bytes on the wire to the message, in plain arithmetic.
//!
//! Each law takes the bytes of a message apart into a `head`, the header fields of its first chunk,
//! and a `body`, its contents with chunk headers in between, and says which message they are.

use crate::chunk_header::ChunkHeaderFormat;
use crate::encoding::{Announcement, Sending};
use crate::model::{Progress, ReaderState};
use vstd::prelude::*;

verus! {

/// A place in a body that is not in a separator is one in the message.
proof fn lemma_place_is_in_message(i: int, length: int, width: int, max: int)
    requires
        max > 0,
        width >= 1,
        length > 0,
        0 <= i < length + (length - 1) / max * width,
        i % (max + width) < max,
    ensures
        0 <= i / (max + width) * max + i % (max + width) < length,
{
    let period = max + width;
    let chunk = i / period;
    let place = i % period;
    let count = (length - 1) / max;
    let left = (length - 1) % max;
    vstd::arithmetic::div_mod::lemma_fundamental_div_mod(i, period);
    vstd::arithmetic::div_mod::lemma_fundamental_div_mod(length - 1, max);
    vstd::arithmetic::div_mod::lemma_mod_bound(i, period);
    vstd::arithmetic::div_mod::lemma_mod_bound(length - 1, max);
    vstd::arithmetic::div_mod::lemma_div_pos_is_pos(i, period);
    assert(0 <= chunk * max + place < length) by (nonlinear_arith)
        requires
            i == period * chunk + place,
            length - 1 == max * count + left,
            0 <= place < max,
            0 <= left < max,
            chunk >= 0,
            period == max + width,
            width >= 1,
            i < length + count * width,
    {
        if chunk < count {
            assert(chunk * max + max <= count * max);
        } else if chunk > count {
            assert(period * chunk >= period * count + period);
            assert(period * count == max * count + count * width);
        } else {
            assert(period * chunk == max * count + count * width);
        }
    }
}

/// A body with a separator behind each full chunk is the contents cut into chunks.
proof fn lemma_body_is_chunked(
    separator: Seq<u8>,
    body: Seq<u8>,
    data: Seq<u8>,
    csid: u32,
    width: int,
    max: int,
)
    requires
        crate::encoding::csid_fits(csid, width as nat),
        width >= 1,
        max > 0,
        separator == crate::encoding::basic_header(
            ChunkHeaderFormat::Empty,
            csid,
            width as nat,
        ),
        body.len() == if data.len() == 0 {
            0
        } else {
            data.len() + (data.len() - 1) / max * width
        },
        forall|i: int|
            0 <= i < body.len() ==> #[trigger] body[i] == {
                let chunk = i / (max + width);
                let place = i % (max + width);
                if place < max {
                    data[chunk * max + place]
                } else {
                    separator[place - max]
                }
            },
    ensures
        body == crate::encoding::chunked(data, csid, width as nat, max as nat),
    decreases data.len(),
{
    let period = max + width;
    if data.len() <= max {
        if data.len() > 0 {
            assert((data.len() - 1) / max == 0) by {
                vstd::arithmetic::div_mod::lemma_basic_div(data.len() - 1, max);
            }
        }
        assert forall|i: int| 0 <= i < data.len() implies body[i] == data[i] by {
            vstd::arithmetic::div_mod::lemma_basic_div(i, period);
            vstd::arithmetic::div_mod::lemma_small_mod(i as nat, period as nat);
        }
        assert(body =~= data);
    } else {
        let others = data.skip(max);
        let later = body.skip(period);
        assert((data.len() - 1) / max == (others.len() - 1) / max + 1) by {
            vstd::arithmetic::div_mod::lemma_div_plus_one(others.len() - 1, max);
        }
        let count = (others.len() - 1) / max;
        assert(count >= 0) by {
            vstd::arithmetic::div_mod::lemma_div_pos_is_pos(others.len() - 1, max);
        }
        assert((count + 1) * width == count * width + width && count * width >= 0)
            by (nonlinear_arith)
            requires
                count >= 0,
                width >= 1,
        ;
        assert forall|i: int| 0 <= i < later.len() implies #[trigger] later[i] == {
            let chunk = i / period;
            let place = i % period;
            if place < max {
                others[chunk * max + place]
            } else {
                separator[place - max]
            }
        } by {
            let chunk = i / period;
            let place = i % period;
            vstd::arithmetic::div_mod::lemma_div_plus_one(i, period);
            vstd::arithmetic::div_mod::lemma_mod_add_multiples_vanish(i, period);
            vstd::arithmetic::div_mod::lemma_div_pos_is_pos(i, period);
            assert((chunk + 1) * max == chunk * max + max && chunk * max >= 0)
                by (nonlinear_arith)
                requires
                    chunk >= 0,
                    max > 0,
            ;
            if place < max {
                lemma_place_is_in_message(i, others.len() as int, width, max);
            }
            assert(later[i] == body[i + period]);
        }
        lemma_body_is_chunked(separator, later, others, csid, width, max);
        assert forall|i: int| 0 <= i < period implies #[trigger] body[i] == (data.take(max)
            + separator)[i] by {
            vstd::arithmetic::div_mod::lemma_basic_div(i, period);
            vstd::arithmetic::div_mod::lemma_small_mod(i as nat, period as nat);
        }
        assert(body =~= data.take(max) + separator + later);
    }
}

proof fn lemma_be24_bytes(high: u8, middle: u8, low: u8)
    ensures
        crate::encoding::be24_bytes(high * 65536 + middle * 256 + low) == seq![high, middle, low],
{
    assert(crate::encoding::be24_bytes(high * 65536 + middle * 256 + low)
        =~= seq![high, middle, low]);
}

proof fn lemma_be32_bytes(first: u8, second: u8, third: u8, fourth: u8)
    ensures
        crate::encoding::be32_bytes(first * 16777216 + second * 65536 + third * 256 + fourth)
            == seq![first, second, third, fourth],
{
    let number = first * 16777216 + second * 65536 + third * 256 + fourth;
    assert(number / 0x100_0000 == first);
    assert(number / 0x1_0000 == first * 0x100 + second);
    assert(number / 0x100 == first * 0x1_0000 + second * 0x100 + third);
    assert(crate::encoding::be32_bytes(number) =~= seq![first, second, third, fourth]);
}

proof fn lemma_le32_bytes(first: u8, second: u8, third: u8, fourth: u8)
    ensures
        crate::encoding::le32_bytes(first + second * 256 + third * 65536 + fourth * 16777216)
            == seq![first, second, third, fourth],
{
    let number = first + second * 256 + third * 65536 + fourth * 16777216;
    assert(number / 0x100_0000 == fourth);
    assert(number / 0x1_0000 == fourth * 0x100 + third);
    assert(number / 0x100 == fourth * 0x1_0000 + third * 0x100 + second);
    assert(crate::encoding::le32_bytes(number) =~= seq![first, second, third, fourth]);
}

/// The front of a head is the basic header that its bytes say.
proof fn lemma_head_starts_with_basic_header(
    format: ChunkHeaderFormat,
    csid: u32,
    width: int,
    head: Seq<u8>,
)
    requires
        head.len() >= width,
        ({
            let bits = crate::encoding::format_bits(format);
            ||| width == 1 && 2 <= csid <= 63 && head[0] == bits + csid
            ||| width == 2 && head[0] == bits && head[1] + 64 == csid
            ||| width == 3 && head[0] == bits + 1 && head[1] + head[2] * 256 + 64 == csid
        }),
    ensures
        crate::encoding::csid_fits(csid, width as nat),
        head.take(width) == crate::encoding::basic_header(format, csid, width as nat),
        head[0] % 64 == if width == 1 {
            csid as int
        } else if width == 2 {
            0
        } else {
            1
        },
{
    assert(head.take(width) =~= crate::encoding::basic_header(format, csid, width as nat));
}

/// The separator is the basic header of a chunk without header fields, on the same chunk stream.
proof fn lemma_separator_is_basic_header(
    format: ChunkHeaderFormat,
    csid: u32,
    width: int,
    head: Seq<u8>,
    separator: Seq<u8>,
)
    requires
        head.len() >= width,
        ({
            let bits = crate::encoding::format_bits(format);
            ||| width == 1 && 2 <= csid <= 63 && head[0] == bits + csid
            ||| width == 2 && head[0] == bits && head[1] + 64 == csid
            ||| width == 3 && head[0] == bits + 1 && head[1] + head[2] * 256 + 64 == csid
        }),
        separator.len() == width,
        separator[0] == 192 + head[0] % 64,
        width >= 2 ==> separator[1] == head[1],
        width == 3 ==> separator[2] == head[2],
    ensures
        separator == crate::encoding::basic_header(
            ChunkHeaderFormat::Empty,
            csid,
            width as nat,
        ),
{
    lemma_head_starts_with_basic_header(format, csid, width, head);
    lemma_head_starts_with_basic_header(ChunkHeaderFormat::Empty, csid, width, separator);
    assert(separator.take(width) =~= separator);
}

/// A head is the basic header and the header fields of what is announced.
proof fn lemma_head_is_announcement(
    head: Seq<u8>,
    csid: u32,
    width: int,
    announcement: Announcement,
    length: int,
)
    requires
        width >= 1,
        head.len() >= width,
        head.take(width) == crate::encoding::basic_header(
            announcement.format(),
            csid,
            width as nat,
        ),
        0 <= length < 16777216,
        ({
            let short = head[width] * 65536 + head[width + 1] * 256 + head[width + 2];
            let count = match announcement {
                Announcement::Full { .. } => 11int,
                Announcement::SameMessageStream { .. } => 7,
                Announcement::SameMessageKind { .. } => 3,
                Announcement::Repetition => 0,
            };
            let time = match announcement {
                Announcement::Full { timestamp, .. } => timestamp as int,
                Announcement::SameMessageStream { delta, .. } => delta as int,
                Announcement::SameMessageKind { delta } => delta as int,
                Announcement::Repetition => 0,
            };
            if announcement is Repetition {
                head.len() == width
            } else if short < 16777215 {
                head.len() == width + count && time == short
            } else {
                &&& head.len() == width + count + 4
                &&& time == head[width + count] * 16777216 + head[width + count + 1] * 65536
                    + head[width + count + 2] * 256 + head[width + count + 3]
                &&& time >= 16777215
            }
        }),
        match announcement {
            Announcement::Full { type_id, message_stream_id, .. } => {
                &&& length == head[width + 3] * 65536 + head[width + 4] * 256 + head[width + 5]
                &&& type_id == head[width + 6]
                &&& message_stream_id == head[width + 7] + head[width + 8] * 256 + head[width + 9]
                    * 65536 + head[width + 10] * 16777216
            },
            Announcement::SameMessageStream { type_id, .. } => {
                &&& length == head[width + 3] * 65536 + head[width + 4] * 256 + head[width + 5]
                &&& type_id == head[width + 6]
            },
            _ => true,
        },
    ensures
        head == crate::encoding::basic_header(announcement.format(), csid, width as nat)
            + announcement.bytes(length),
{
    let fields = head.skip(width);
    assert(head =~= head.take(width) + fields);
    lemma_be24_bytes(fields[0], fields[1], fields[2]);
    match announcement {
        Announcement::Full { timestamp, type_id, message_stream_id } => {
            lemma_be24_bytes(fields[3], fields[4], fields[5]);
            lemma_le32_bytes(fields[7], fields[8], fields[9], fields[10]);
            if timestamp >= 16777215 {
                lemma_be32_bytes(fields[11], fields[12], fields[13], fields[14]);
            }
            assert(fields =~= announcement.bytes(length));
        },
        Announcement::SameMessageStream { delta, type_id } => {
            lemma_be24_bytes(fields[3], fields[4], fields[5]);
            if delta >= 16777215 {
                lemma_be32_bytes(fields[7], fields[8], fields[9], fields[10]);
            }
            assert(fields =~= announcement.bytes(length));
        },
        Announcement::SameMessageKind { delta } => {
            if delta >= 16777215 {
                lemma_be32_bytes(fields[3], fields[4], fields[5], fields[6]);
            }
            assert(fields =~= announcement.bytes(length));
        },
        Announcement::Repetition => {
            assert(fields =~= announcement.bytes(length));
        },
    }
}

/// Head and body are the bytes of the message, which is therefore read.
proof fn lemma_parts_are_read(
    reader: ReaderState,
    sent: Sending,
    width: int,
    head: Seq<u8>,
    separator: Seq<u8>,
    body: Seq<u8>,
    rest: Seq<u8>,
)
    requires
        crate::round_trip::between_messages(reader),
        reader.max_chunk_size > 0,
        width >= 1,
        sent.id_width == width,
        sent.possible_after(reader.previous_headers),
        head == crate::encoding::basic_header(sent.announcement.format(), sent.csid, sent.id_width)
            + sent.announcement.bytes(sent.data.len() as int),
        separator == crate::encoding::basic_header(
            ChunkHeaderFormat::Empty,
            sent.csid,
            sent.id_width,
        ),
        body.len() == if sent.data.len() == 0 {
            0
        } else {
            sent.data.len() + (sent.data.len() - 1) / (reader.max_chunk_size as int) * width
        },
        forall|i: int|
            0 <= i < body.len() ==> #[trigger] body[i] == {
                let chunk = i / (reader.max_chunk_size + width);
                let place = i % (reader.max_chunk_size + width);
                if place < reader.max_chunk_size {
                    sent.data[chunk * reader.max_chunk_size + place]
                } else {
                    separator[place - reader.max_chunk_size]
                }
            },
    ensures
        reader.fed(head + body + rest).decoded() == (
            crate::round_trip::reader_after(reader, sent).fed(rest),
            Progress::Delivers(sent.message_after(reader.previous_headers)),
        ),
{
    let max = reader.max_chunk_size as int;
    lemma_body_is_chunked(separator, body, sent.data, sent.csid, width, max);
    assert(head + body + rest =~= sent.bytes(reader.max_chunk_size) + rest);
    crate::round_trip::law_message_is_read_back(reader, sent, rest);
}

/// A message whose first chunk is a full one. Its timestamp is in the three bytes behind the chunk
/// stream id, or in the last four of the head if these three are the placeholder 16777215; its
/// length, type and message stream id are in the three bytes, the byte and the four bytes that
/// follow, the message stream id with the low byte first.
pub proof fn law_full_message_is_what_its_bytes_say(
    reader: ReaderState,
    csid: u32,
    width: int,
    timestamp: u32,
    head: Seq<u8>,
    separator: Seq<u8>,
    body: Seq<u8>,
    data: Seq<u8>,
    rest: Seq<u8>,
)
    requires
        reader.stage is Csid,
        reader.buffer.len() == 0,
        reader.payload.data.len() == 0,
        reader.max_chunk_size > 0,
        data.len() < 16777216,
        // Format and chunk stream id, in one, two or three bytes.
        ({
            ||| width == 1 && 2 <= csid <= 63 && head[0] == csid
            ||| width == 2 && head[0] == 0 && head[1] + 64 == csid
            ||| width == 3 && head[0] == 1 && head[1] + head[2] * 256 + 64 == csid
        }),
        ({
            let short = head[width] * 65536 + head[width + 1] * 256 + head[width + 2];
            if short < 16777215 {
                head.len() == width + 11 && timestamp == short
            } else {
                &&& head.len() == width + 15
                &&& timestamp == head[width + 11] * 16777216 + head[width + 12] * 65536 + head[width
                    + 13] * 256 + head[width + 14]
                &&& timestamp >= 16777215
            }
        }),
        data.len() == head[width + 3] * 65536 + head[width + 4] * 256 + head[width + 5],
        // The message bytes, with a chunk header of the same chunk stream behind each full chunk.
        separator.len() == width,
        separator[0] == 192 + head[0] % 64,
        width >= 2 ==> separator[1] == head[1],
        width == 3 ==> separator[2] == head[2],
        body.len() == if data.len() == 0 {
            0
        } else {
            data.len() + (data.len() - 1) / (reader.max_chunk_size as int) * width
        },
        forall|i: int|
            0 <= i < body.len() ==> #[trigger] body[i] == {
                let chunk = i / (reader.max_chunk_size + width);
                let place = i % (reader.max_chunk_size + width);
                if place < reader.max_chunk_size {
                    data[chunk * reader.max_chunk_size + place]
                } else {
                    separator[place - reader.max_chunk_size]
                }
            },
    ensures
        ({
            let (next, progress) = reader.fed(head + body + rest).decoded();
            let header = next.previous_headers[csid];
            &&& progress matches Progress::Delivers(message)
            &&& message.data == data
            &&& message.timestamp.value == timestamp
            &&& message.type_id == head[width + 6]
            &&& message.message_stream_id == head[width + 7] + head[width + 8] * 256 + head[width
                + 9] * 65536 + head[width + 10] * 16777216
            &&& header.chunk_stream_id == csid
            &&& header.timestamp.value == timestamp
            &&& header.timestamp_delta == 0
            &&& header.message_length == data.len()
            &&& header.message_type_id == head[width + 6]
            &&& header.message_stream_id == head[width + 7] + head[width + 8] * 256 + head[width
                + 9] * 65536 + head[width + 10] * 16777216
            &&& next.previous_headers == reader.previous_headers.insert(csid, header)
            &&& next.buffer == rest
            &&& next.stage is Csid
            &&& next.payload.data.len() == 0
            &&& next.max_chunk_size == reader.max_chunk_size
        }),
{
    let sent = Sending {
        csid,
        id_width: width as nat,
        announcement: Announcement::Full {
            timestamp,
            type_id: head[width + 6],
            message_stream_id: (head[width + 7] + head[width + 8] * 256 + head[width + 9] * 65536
                + head[width + 10] * 16777216) as u32,
        },
        data,
    };
    let format = sent.announcement.format();
    let length = data.len() as int;
    lemma_head_starts_with_basic_header(format, csid, width, head);
    lemma_separator_is_basic_header(format, csid, width, head, separator);
    lemma_head_is_announcement(head, csid, width, sent.announcement, length);
    lemma_parts_are_read(reader, sent, width, head, separator, body, rest);
}

/// On a new connection messages are cut behind every 128 bytes: from pieces of that size the first
/// message is put together, whatever its length, and what follows it stays in the buffer.
pub proof fn law_new_connection_has_chunks_of_128_bytes(
    csid: u32,
    width: int,
    timestamp: u32,
    head: Seq<u8>,
    separator: Seq<u8>,
    body: Seq<u8>,
    data: Seq<u8>,
    rest: Seq<u8>,
)
    requires
        data.len() < 16777216,
        // Format and chunk stream id, in one, two or three bytes.
        ({
            ||| width == 1 && 2 <= csid <= 63 && head[0] == csid
            ||| width == 2 && head[0] == 0 && head[1] + 64 == csid
            ||| width == 3 && head[0] == 1 && head[1] + head[2] * 256 + 64 == csid
        }),
        ({
            let short = head[width] * 65536 + head[width + 1] * 256 + head[width + 2];
            if short < 16777215 {
                head.len() == width + 11 && timestamp == short
            } else {
                &&& head.len() == width + 15
                &&& timestamp == head[width + 11] * 16777216 + head[width + 12] * 65536 + head[width
                    + 13] * 256 + head[width + 14]
                &&& timestamp >= 16777215
            }
        }),
        data.len() == head[width + 3] * 65536 + head[width + 4] * 256 + head[width + 5],
        // The message bytes, with a chunk header of the same chunk stream behind each full chunk.
        separator.len() == width,
        separator[0] == 192 + head[0] % 64,
        width >= 2 ==> separator[1] == head[1],
        width == 3 ==> separator[2] == head[2],
        body.len() == if data.len() == 0 {
            0
        } else {
            data.len() + (data.len() - 1) / 128 * width
        },
        forall|i: int|
            0 <= i < body.len() ==> #[trigger] body[i] == {
                let chunk = i / (128 + width);
                let place = i % (128 + width);
                if place < 128 {
                    data[chunk * 128 + place]
                } else {
                    separator[place - 128]
                }
            },
    ensures
        ({
            let (next, progress) = ReaderState::initial(128).fed(head + body + rest).decoded();
            &&& progress matches Progress::Delivers(message)
            &&& message.data == data
            &&& message.timestamp.value == timestamp
            &&& message.type_id == head[width + 6]
            &&& message.message_stream_id == head[width + 7] + head[width + 8] * 256 + head[width
                + 9] * 65536 + head[width + 10] * 16777216
            &&& next.buffer == rest
            &&& next.max_chunk_size == 128
        }),
{
    law_full_message_is_what_its_bytes_say(
        ReaderState::initial(128),
        csid,
        width,
        timestamp,
        head,
        separator,
        body,
        data,
        rest,
    );
}

/// A message whose first chunk leaves out the message stream. It comes `delta` after the previous
/// one of its chunk stream, and has its message stream.
pub proof fn law_message_with_delta_and_length_is_what_its_bytes_say(
    reader: ReaderState,
    csid: u32,
    width: int,
    delta: u32,
    head: Seq<u8>,
    separator: Seq<u8>,
    body: Seq<u8>,
    data: Seq<u8>,
    rest: Seq<u8>,
)
    requires
        reader.stage is Csid,
        reader.buffer.len() == 0,
        reader.payload.data.len() == 0,
        reader.max_chunk_size > 0,
        data.len() < 16777216,
        // Format and chunk stream id, in one, two or three bytes.
        ({
            ||| width == 1 && 2 <= csid <= 63 && head[0] == 64 + csid
            ||| width == 2 && head[0] == 64 && head[1] + 64 == csid
            ||| width == 3 && head[0] == 65 && head[1] + head[2] * 256 + 64 == csid
        }),
        reader.previous_headers.contains_key(csid),
        reader.previous_headers[csid].chunk_stream_id == csid,
        ({
            let short = head[width] * 65536 + head[width + 1] * 256 + head[width + 2];
            if short < 16777215 {
                head.len() == width + 7 && delta == short
            } else {
                &&& head.len() == width + 11
                &&& delta == head[width + 7] * 16777216 + head[width + 8] * 65536 + head[width
                    + 9] * 256 + head[width + 10]
                &&& delta >= 16777215
            }
        }),
        data.len() == head[width + 3] * 65536 + head[width + 4] * 256 + head[width + 5],
        // The message bytes, with a chunk header of the same chunk stream behind each full chunk.
        separator.len() == width,
        separator[0] == 192 + head[0] % 64,
        width >= 2 ==> separator[1] == head[1],
        width == 3 ==> separator[2] == head[2],
        body.len() == if data.len() == 0 {
            0
        } else {
            data.len() + (data.len() - 1) / (reader.max_chunk_size as int) * width
        },
        forall|i: int|
            0 <= i < body.len() ==> #[trigger] body[i] == {
                let chunk = i / (reader.max_chunk_size + width);
                let place = i % (reader.max_chunk_size + width);
                if place < reader.max_chunk_size {
                    data[chunk * reader.max_chunk_size + place]
                } else {
                    separator[place - reader.max_chunk_size]
                }
            },
    ensures
        ({
            let (next, progress) = reader.fed(head + body + rest).decoded();
            let header = next.previous_headers[csid];
            &&& progress matches Progress::Delivers(message)
            &&& message.data == data
            &&& message.timestamp.value == (reader.previous_headers[csid].timestamp.value
                + delta) % 4294967296
            &&& message.type_id == head[width + 6]
            &&& message.message_stream_id == reader.previous_headers[csid].message_stream_id
            &&& header.chunk_stream_id == csid
            &&& header.timestamp.value == (reader.previous_headers[csid].timestamp.value
                + delta) % 4294967296
            &&& header.timestamp_delta == delta
            &&& header.message_length == data.len()
            &&& header.message_type_id == head[width + 6]
            &&& header.message_stream_id == reader.previous_headers[csid].message_stream_id
            &&& next.previous_headers == reader.previous_headers.insert(csid, header)
            &&& next.buffer == rest
            &&& next.stage is Csid
            &&& next.payload.data.len() == 0
            &&& next.max_chunk_size == reader.max_chunk_size
        }),
{
    let sent = Sending {
        csid,
        id_width: width as nat,
        announcement: Announcement::SameMessageStream { delta, type_id: head[width + 6] },
        data,
    };
    let format = sent.announcement.format();
    let length = data.len() as int;
    lemma_head_starts_with_basic_header(format, csid, width, head);
    lemma_separator_is_basic_header(format, csid, width, head, separator);
    lemma_head_is_announcement(head, csid, width, sent.announcement, length);
    lemma_parts_are_read(reader, sent, width, head, separator, body, rest);
}

/// A message whose first chunk has a time delta only. It comes `delta` after the previous one of
/// its chunk stream, and has its length, type and message stream.
pub proof fn law_message_with_delta_only_is_what_its_bytes_say(
    reader: ReaderState,
    csid: u32,
    width: int,
    delta: u32,
    head: Seq<u8>,
    separator: Seq<u8>,
    body: Seq<u8>,
    data: Seq<u8>,
    rest: Seq<u8>,
)
    requires
        reader.stage is Csid,
        reader.buffer.len() == 0,
        reader.payload.data.len() == 0,
        reader.max_chunk_size > 0,
        data.len() < 16777216,
        // Format and chunk stream id, in one, two or three bytes.
        ({
            ||| width == 1 && 2 <= csid <= 63 && head[0] == 128 + csid
            ||| width == 2 && head[0] == 128 && head[1] + 64 == csid
            ||| width == 3 && head[0] == 129 && head[1] + head[2] * 256 + 64 == csid
        }),
        reader.previous_headers.contains_key(csid),
        reader.previous_headers[csid].chunk_stream_id == csid,
        ({
            let short = head[width] * 65536 + head[width + 1] * 256 + head[width + 2];
            if short < 16777215 {
                head.len() == width + 3 && delta == short
            } else {
                &&& head.len() == width + 7
                &&& delta == head[width + 3] * 16777216 + head[width + 4] * 65536 + head[width
                    + 5] * 256 + head[width + 6]
                &&& delta >= 16777215
            }
        }),
        data.len() == reader.previous_headers[csid].message_length,
        // The message bytes, with a chunk header of the same chunk stream behind each full chunk.
        separator.len() == width,
        separator[0] == 192 + head[0] % 64,
        width >= 2 ==> separator[1] == head[1],
        width == 3 ==> separator[2] == head[2],
        body.len() == if data.len() == 0 {
            0
        } else {
            data.len() + (data.len() - 1) / (reader.max_chunk_size as int) * width
        },
        forall|i: int|
            0 <= i < body.len() ==> #[trigger] body[i] == {
                let chunk = i / (reader.max_chunk_size + width);
                let place = i % (reader.max_chunk_size + width);
                if place < reader.max_chunk_size {
                    data[chunk * reader.max_chunk_size + place]
                } else {
                    separator[place - reader.max_chunk_size]
                }
            },
    ensures
        ({
            let (next, progress) = reader.fed(head + body + rest).decoded();
            let header = next.previous_headers[csid];
            &&& progress matches Progress::Delivers(message)
            &&& message.data == data
            &&& message.timestamp.value == (reader.previous_headers[csid].timestamp.value
                + delta) % 4294967296
            &&& message.type_id == reader.previous_headers[csid].message_type_id
            &&& message.message_stream_id == reader.previous_headers[csid].message_stream_id
            &&& header.chunk_stream_id == csid
            &&& header.timestamp.value == (reader.previous_headers[csid].timestamp.value
                + delta) % 4294967296
            &&& header.timestamp_delta == delta
            &&& header.message_length == data.len()
            &&& header.message_type_id == reader.previous_headers[csid].message_type_id
            &&& header.message_stream_id == reader.previous_headers[csid].message_stream_id
            &&& next.previous_headers == reader.previous_headers.insert(csid, header)
            &&& next.buffer == rest
            &&& next.stage is Csid
            &&& next.payload.data.len() == 0
            &&& next.max_chunk_size == reader.max_chunk_size
        }),
{
    let sent = Sending {
        csid,
        id_width: width as nat,
        announcement: Announcement::SameMessageKind { delta },
        data,
    };
    let format = sent.announcement.format();
    let length = data.len() as int;
    lemma_head_starts_with_basic_header(format, csid, width, head);
    lemma_separator_is_basic_header(format, csid, width, head, separator);
    lemma_head_is_announcement(head, csid, width, sent.announcement, length);
    lemma_parts_are_read(reader, sent, width, head, separator, body, rest);
}

/// A message whose first chunk has no header fields. It comes as long after the previous one of its
/// chunk stream as that one was said to come after the one before, and has its length, type and
/// message stream.
pub proof fn law_message_without_header_fields_is_what_its_bytes_say(
    reader: ReaderState,
    csid: u32,
    width: int,
    head: Seq<u8>,
    separator: Seq<u8>,
    body: Seq<u8>,
    data: Seq<u8>,
    rest: Seq<u8>,
)
    requires
        reader.stage is Csid,
        reader.buffer.len() == 0,
        reader.payload.data.len() == 0,
        reader.max_chunk_size > 0,
        data.len() < 16777216,
        // Format and chunk stream id, in one, two or three bytes.
        ({
            ||| width == 1 && 2 <= csid <= 63 && head[0] == 192 + csid
            ||| width == 2 && head[0] == 192 && head[1] + 64 == csid
            ||| width == 3 && head[0] == 193 && head[1] + head[2] * 256 + 64 == csid
        }),
        reader.previous_headers.contains_key(csid),
        reader.previous_headers[csid].chunk_stream_id == csid,
        head.len() == width,
        data.len() == reader.previous_headers[csid].message_length,
        // The message bytes, with a chunk header of the same chunk stream behind each full chunk.
        separator.len() == width,
        separator[0] == 192 + head[0] % 64,
        width >= 2 ==> separator[1] == head[1],
        width == 3 ==> separator[2] == head[2],
        body.len() == if data.len() == 0 {
            0
        } else {
            data.len() + (data.len() - 1) / (reader.max_chunk_size as int) * width
        },
        forall|i: int|
            0 <= i < body.len() ==> #[trigger] body[i] == {
                let chunk = i / (reader.max_chunk_size + width);
                let place = i % (reader.max_chunk_size + width);
                if place < reader.max_chunk_size {
                    data[chunk * reader.max_chunk_size + place]
                } else {
                    separator[place - reader.max_chunk_size]
                }
            },
    ensures
        ({
            let (next, progress) = reader.fed(head + body + rest).decoded();
            let header = next.previous_headers[csid];
            &&& progress matches Progress::Delivers(message)
            &&& message.data == data
            &&& message.timestamp.value == (reader.previous_headers[csid].timestamp.value
                + reader.previous_headers[csid].timestamp_delta) % 4294967296
            &&& message.type_id == reader.previous_headers[csid].message_type_id
            &&& message.message_stream_id == reader.previous_headers[csid].message_stream_id
            &&& header.chunk_stream_id == csid
            &&& header.timestamp.value == (reader.previous_headers[csid].timestamp.value
                + reader.previous_headers[csid].timestamp_delta) % 4294967296
            &&& header.timestamp_delta == reader.previous_headers[csid].timestamp_delta
            &&& header.message_length == data.len()
            &&& header.message_type_id == reader.previous_headers[csid].message_type_id
            &&& header.message_stream_id == reader.previous_headers[csid].message_stream_id
            &&& next.previous_headers == reader.previous_headers.insert(csid, header)
            &&& next.buffer == rest
            &&& next.stage is Csid
            &&& next.payload.data.len() == 0
            &&& next.max_chunk_size == reader.max_chunk_size
        }),
{
    let sent = Sending {
        csid,
        id_width: width as nat,
        announcement: Announcement::Repetition,
        data,
    };
    let format = sent.announcement.format();
    let length = data.len() as int;
    lemma_head_starts_with_basic_header(format, csid, width, head);
    lemma_separator_is_basic_header(format, csid, width, head, separator);
    lemma_head_is_announcement(head, csid, width, sent.announcement, length);
    lemma_parts_are_read(reader, sent, width, head, separator, body, rest);
}

} // verus!
