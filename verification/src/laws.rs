//! What holds of reading chunks as a whole, whatever the bytes are and however they come in.

use crate::chunk_header::ChunkHeader;
use crate::messages::Message;
use crate::model::{ParseStage, Progress, ReaderState, LARGEST_MAX_CHUNK_SIZE};
use vstd::prelude::*;

verus! {

/// More bytes behind a field change nothing about the step that reads the field.
proof fn lemma_step_with_bytes_behind(reader: ReaderState, bytes: Seq<u8>)
    requires
        reader.buffer.len() >= reader.field_width(),
    ensures
        reader.fed(bytes).step().0 == reader.step().0.fed(bytes),
        reader.fed(bytes).step().1 == reader.step().1,
{
    let fed = reader.fed(bytes);
    let width = reader.field_width() as int;
    assert(fed.buffer.skip(width) =~= reader.buffer.skip(width) + bytes);
    assert(fed.buffer.take(width) =~= reader.buffer.take(width));
    assert(fed.field_width() == width);
    match reader.stage {
        ParseStage::Csid => {
            assert(fed.chunk_opened().0 =~= reader.chunk_opened().0.fed(bytes));
        },
        ParseStage::InitialTimestamp => {
            assert(fed.header_with_timestamp() == reader.header_with_timestamp());
        },
        ParseStage::MessageLength => {
            assert(fed.header_with_length() == reader.header_with_length());
        },
        ParseStage::MessageTypeId => {
            assert(fed.header_with_type_id() == reader.header_with_type_id());
        },
        ParseStage::MessageStreamId => {
            assert(fed.header_with_stream_id() == reader.header_with_stream_id());
        },
        ParseStage::ExtendedTimestamp => {
            assert(fed.header_with_extended_timestamp()
                == reader.header_with_extended_timestamp());
        },
        ParseStage::MessagePayload => {
            assert(fed.gathered() == reader.gathered());
        },
    }
}

/// A step that waits for bytes loses nothing.
proof fn lemma_step_after_waiting(reader: ReaderState, bytes: Seq<u8>)
    requires
        reader.buffer.len() < reader.field_width(),
    ensures
        reader.waiting().fed(bytes).step() == reader.fed(bytes).step(),
{
    if reader.stage is Csid && reader.buffer.len() > 0 {
        let waited = reader.waiting().fed(bytes);
        let fed = reader.fed(bytes);
        assert(waited.buffer == fed.buffer);
        assert(waited.field_width() == fed.field_width());
        assert(waited.waiting() =~= fed.waiting());
        assert(waited.chunk_opened() =~= fed.chunk_opened());
    }
}

/// The same for a run of steps.
proof fn lemma_decoded_of_fed(reader: ReaderState, bytes: Seq<u8>)
    ensures
        !(reader.decoded().1 is NeedsBytes) ==> reader.fed(bytes).decoded() == (
            reader.decoded().0.fed(bytes),
            reader.decoded().1,
        ),
        reader.decoded().1 is NeedsBytes ==> reader.decoded().0.fed(bytes).decoded() == reader.fed(
            bytes,
        ).decoded(),
    decreases reader.buffer.len(), reader.stage.fields_left(),
{
    let (next, progress) = reader.step();
    if progress is NeedsBytes {
        lemma_step_after_waiting(reader, bytes);
    } else {
        lemma_step_with_bytes_behind(reader, bytes);
    }
    if progress is Continues {
        lemma_decoded_of_fed(next, bytes);
    }
}

/// Bytes may come in pieces: if some are not enough for a message, reading them and then the
/// others is reading all of them at once.
pub proof fn law_bytes_may_come_in_pieces(reader: ReaderState, first: Seq<u8>, second: Seq<u8>)
    requires
        reader.fed(first).decoded().1 is NeedsBytes,
    ensures
        reader.fed(first).decoded().0.fed(second).decoded() == reader.fed(
            first + second,
        ).decoded(),
{
    lemma_decoded_of_fed(reader.fed(first), second);
    assert(reader.fed(first).fed(second) =~= reader.fed(first + second));
}

/// Bytes behind a message wait for their turn: they change nothing about the message, and stay
/// in the buffer.
pub proof fn law_bytes_behind_a_message_are_kept(
    reader: ReaderState,
    first: Seq<u8>,
    second: Seq<u8>,
)
    requires
        reader.fed(first).decoded().1 is Delivers,
    ensures
        reader.fed(first + second).decoded() == (
            reader.fed(first).decoded().0.fed(second),
            reader.fed(first).decoded().1,
        ),
{
    lemma_decoded_of_fed(reader.fed(first), second);
    assert(reader.fed(first).fed(second) =~= reader.fed(first + second));
}

/// A chunk that relies on a missing one is never got past: whatever bytes follow, reading ends in
/// the same error, and changes nothing but the buffer that the bytes are added to.
pub proof fn law_refusal_is_final(reader: ReaderState, bytes: Seq<u8>)
    requires
        reader.decoded().1 is NoPreviousChunk,
    ensures
        reader.decoded().0.fed(bytes).decoded() == (
            reader.decoded().0.fed(bytes),
            reader.decoded().1,
        ),
    decreases reader.buffer.len(), reader.stage.fields_left(),
{
    let (next, progress) = reader.step();
    if progress is Continues {
        law_refusal_is_final(next, bytes);
    } else {
        lemma_step_with_bytes_behind(reader, bytes);
        assert(next.step() == (next, progress));
        lemma_step_with_bytes_behind(next, bytes);
    }
}

/// Reading goes on as far as it can: it stops in front of a field that is not wholly buffered, and
/// reading again without more bytes changes nothing.
pub proof fn law_nothing_happens_without_bytes(reader: ReaderState)
    requires
        reader.decoded().1 is NeedsBytes,
    ensures
        reader.decoded().0.buffer.len() < reader.decoded().0.field_width(),
        reader.decoded().0.decoded() == reader.decoded(),
    decreases reader.buffer.len(), reader.stage.fields_left(),
{
    let (next, progress) = reader.step();
    if progress is Continues {
        law_nothing_happens_without_bytes(next);
    } else {
        assert(next.waiting() =~= next);
    }
}

/// Reading ends in a message, for want of bytes or in an error, and in no other way.
pub proof fn law_reading_comes_to_an_end(reader: ReaderState)
    ensures
        !(reader.decoded().1 is Continues),
    decreases reader.buffer.len(), reader.stage.fields_left(),
{
    let (next, progress) = reader.step();
    if progress is Continues {
        law_reading_comes_to_an_end(next);
    }
}

/// Whether `rest` is what is left of `buffer` once bytes have been taken off its front.
#[verifier::opaque]
spec fn is_rest_of(rest: Seq<u8>, buffer: Seq<u8>) -> bool {
    &&& rest.len() <= buffer.len()
    &&& rest == buffer.skip(buffer.len() - rest.len())
}

proof fn lemma_rest_of_rest(rest: Seq<u8>, between: Seq<u8>, buffer: Seq<u8>)
    requires
        is_rest_of(rest, between),
        is_rest_of(between, buffer),
    ensures
        is_rest_of(rest, buffer),
{
    reveal(is_rest_of);
    assert(rest =~= buffer.skip(buffer.len() - rest.len()));
}

proof fn lemma_step_reads_from_the_front(reader: ReaderState)
    ensures
        is_rest_of(reader.step().0.buffer, reader.buffer),
{
    reveal(is_rest_of);
    if reader.step().1 is NeedsBytes || reader.step().1 is NoPreviousChunk {
        assert(reader.buffer.skip(0) =~= reader.buffer);
    }
}

proof fn lemma_decoding_reads_from_the_front(reader: ReaderState)
    ensures
        is_rest_of(reader.decoded().0.buffer, reader.buffer),
    decreases reader.buffer.len(), reader.stage.fields_left(),
{
    let (next, progress) = reader.step();
    lemma_step_reads_from_the_front(reader);
    if progress is Continues {
        lemma_decoding_reads_from_the_front(next);
        lemma_rest_of_rest(reader.decoded().0.buffer, next.buffer, reader.buffer);
    }
}

/// Bytes are read in order, from the front of the buffer, and none is made up.
pub proof fn law_bytes_are_read_in_order(reader: ReaderState)
    ensures
        reader.decoded().0.buffer.len() <= reader.buffer.len(),
        reader.decoded().0.buffer == reader.buffer.skip(
            reader.buffer.len() - reader.decoded().0.buffer.len(),
        ),
{
    lemma_decoding_reads_from_the_front(reader);
    reveal(is_rest_of);
}

/// Nothing on the wire changes the maximum chunk size.
pub proof fn law_reading_keeps_the_maximum_chunk_size(reader: ReaderState)
    ensures
        reader.decoded().0.max_chunk_size == reader.max_chunk_size,
    decreases reader.buffer.len(), reader.stage.fields_left(),
{
    let (next, progress) = reader.step();
    if progress is Continues {
        law_reading_keeps_the_maximum_chunk_size(next);
    }
}

/// Whether `header` is one of chunk stream `csid`, and is the header of `message`.
pub open spec fn header_describes(header: ChunkHeader, csid: u32, message: Message) -> bool {
    &&& header.chunk_stream_id == csid
    &&& header.message_length == message.data.len()
    &&& header.timestamp == message.timestamp
    &&& header.message_type_id == message.type_id
    &&& header.message_stream_id == message.message_stream_id
}

/// A message is as long as its header announces, and has the timestamp, the type and the message
/// stream of that header, which its chunk stream remembers. The reader is then in front of a new
/// chunk, with nothing of a message put together.
pub proof fn law_message_agrees_with_its_header(reader: ReaderState)
    requires
        reader.decoded().1 is Delivers,
    ensures
        reader.decoded().0.stage is Csid,
        reader.decoded().0.payload == Message::blank(),
        exists|csid: u32| #[trigger]
            reader.decoded().0.previous_headers.contains_key(csid) && header_describes(
                reader.decoded().0.previous_headers[csid],
                csid,
                reader.decoded().1->Delivers_0,
            ),
    decreases reader.buffer.len(), reader.stage.fields_left(),
{
    let (next, progress) = reader.step();
    if progress is Continues {
        law_message_agrees_with_its_header(next);
    } else {
        assert(next.previous_headers.contains_key(reader.header.chunk_stream_id));
    }
}

/// A well-formed reader stays well formed, whatever it is handed.
pub proof fn law_readers_stay_well_formed(reader: ReaderState, bytes: Seq<u8>)
    requires
        reader.wf(),
    ensures
        reader.fed(bytes).decoded().0.wf(),
{
    lemma_decoded_is_wf(reader.fed(bytes));
}

proof fn lemma_decoded_is_wf(reader: ReaderState)
    requires
        reader.wf(),
    ensures
        reader.decoded().0.wf(),
    decreases reader.buffer.len(), reader.stage.fields_left(),
{
    let (next, progress) = reader.step();
    assert(next.wf());
    if progress is Continues {
        lemma_decoded_is_wf(next);
    }
}

/// Which messages come out does not depend on where the bytes are cut in two.
pub proof fn law_messages_do_not_depend_on_a_cut(
    reader: ReaderState,
    first: Seq<u8>,
    second: Seq<u8>,
)
    ensures
        ({
            let (between, earlier, _) = reader.fed(first).drained();
            let (last, later, end) = between.fed(second).drained();
            reader.fed(first + second).drained() == (last, earlier + later, end)
        }),
{
    assert(reader.fed(first).fed(second) =~= reader.fed(first + second));
    lemma_drained_of_fed(reader.fed(first), second);
}

proof fn lemma_drained_of_fed(reader: ReaderState, bytes: Seq<u8>)
    ensures
        ({
            let (between, earlier, _) = reader.drained();
            let (last, later, end) = between.fed(bytes).drained();
            reader.fed(bytes).drained() == (last, earlier + later, end)
        }),
    decreases reader.buffer.len(), reader.stage.fields_left(),
{
    let (next, progress) = reader.decoded();
    lemma_decoded_of_fed(reader, bytes);
    law_reading_comes_to_an_end(reader);
    match progress {
        Progress::Delivers(message) => {
            reader.lemma_delivery_gets_further();
            lemma_drained_of_fed(next, bytes);
            let (between, earlier, _) = next.drained();
            let (last, later, end) = between.fed(bytes).drained();
            assert(seq![message] + (earlier + later) =~= (seq![message] + earlier) + later);
        },
        Progress::NeedsBytes => {
            let (last, later, end) = next.fed(bytes).drained();
            assert(Seq::<Message>::empty() + later =~= later);
        },
        _ => {
            law_refusal_is_final(reader, bytes);
            assert(Seq::<Message>::empty() + Seq::<Message>::empty() =~= Seq::<Message>::empty());
        },
    }
}

/// Which messages come out does not depend on the pieces in which the bytes come in, nor does the
/// reader that is left.
pub proof fn law_messages_do_not_depend_on_the_pieces(
    reader: ReaderState,
    pieces: Seq<Seq<u8>>,
)
    ensures
        reader.drained_by_pieces(pieces) == reader.fed(pieces.flatten()).drained(),
    decreases pieces.len(),
{
    if pieces.len() == 0 {
        assert(reader.fed(pieces.flatten()) =~= reader);
    } else {
        let next = reader.fed(pieces[0]).drained().0;
        let others = pieces.drop_first();
        law_messages_do_not_depend_on_the_pieces(next, others);
        law_messages_do_not_depend_on_a_cut(reader, pieces[0], others.flatten());
    }
}

/// An error names the chunk stream of the chunk in front, which is not a full one and whose chunk
/// stream has no header to take over from. None of the chunk is read.
pub proof fn law_refusal_names_the_unknown_chunk_stream(reader: ReaderState)
    requires
        reader.decoded().1 is NoPreviousChunk,
    ensures
        ({
            let (last, progress) = reader.decoded();
            let csid = progress->NoPreviousChunk_0;
            &&& last.stage is Csid
            &&& last.buffer.len() >= crate::model::basic_header_len(last.buffer)
            &&& csid == crate::model::csid_of(last.buffer)
            &&& !(crate::model::format_of(last.buffer[0]) is Full)
            &&& !last.knows(csid)
        }),
    decreases reader.buffer.len(), reader.stage.fields_left(),
{
    let (next, progress) = reader.step();
    if progress is Continues {
        law_refusal_names_the_unknown_chunk_stream(next);
    }
}

/// A chunk stream that is known stays known, so that no later chunk of it is refused.
pub proof fn law_known_chunk_streams_are_never_refused(
    reader: ReaderState,
    csid: u32,
    bytes: Seq<u8>,
)
    requires
        reader.wf(),
        reader.knows(csid),
    ensures
        reader.fed(bytes).decoded().0.knows(csid),
        reader.fed(bytes).decoded().1 != Progress::NoPreviousChunk(csid),
{
    let fed = reader.fed(bytes);
    lemma_decoded_knows(fed, csid);
    if fed.decoded().1 is NoPreviousChunk {
        law_refusal_names_the_unknown_chunk_stream(fed);
    }
}

proof fn lemma_decoded_knows(reader: ReaderState, csid: u32)
    requires
        reader.wf(),
        reader.knows(csid),
    ensures
        reader.decoded().0.knows(csid),
    decreases reader.buffer.len(), reader.stage.fields_left(),
{
    let (next, progress) = reader.step();
    assert(next.wf());
    assert(next.knows(csid));
    if progress is Continues {
        lemma_decoded_knows(next, csid);
    }
}

} // verus!
