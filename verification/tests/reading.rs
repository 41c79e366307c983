use rtmp::{
    get_csid, get_format, ChunkDeserializationError, ChunkDeserializationErrorKind,
    ChunkDeserializer, ChunkHeader, ChunkHeaderFormat, MessagePayload, ParsedValue, RtmpTimestamp,
};

/// A full header on chunk stream 4, message stream 0x0a0b0c0d, type 9, and three bytes of data.
const FULL_CHUNK: [u8; 15] = [
    0x04, 0x00, 0x01, 0x02, 0x00, 0x00, 0x03, 0x09, 0x0d, 0x0c, 0x0b, 0x0a, 0xa1, 0xa2, 0xa3,
];

fn deserializer_with_max(size: usize) -> ChunkDeserializer {
    let mut deserializer = ChunkDeserializer::new();
    deserializer.set_max_chunk_size(size).unwrap();
    deserializer
}

fn expect_message(deserializer: &mut ChunkDeserializer, bytes: &[u8]) -> MessagePayload {
    deserializer.get_next_message(bytes).unwrap().unwrap()
}

fn expect_none(deserializer: &mut ChunkDeserializer, bytes: &[u8]) {
    assert!(deserializer.get_next_message(bytes).unwrap().is_none());
}

fn expect_no_previous_chunk(deserializer: &mut ChunkDeserializer, bytes: &[u8], expected: u32) {
    match deserializer.get_next_message(bytes) {
        Err(ChunkDeserializationError {
            kind: ChunkDeserializationErrorKind::NoPreviousChunkOnStream { csid },
        }) => assert_eq!(csid, expected),
        x => panic!("Unexpected result {:?}", x),
    }
}

#[test]
fn every_header_field_is_read_in_its_byte_order() {
    let mut deserializer = ChunkDeserializer::new();
    let message = expect_message(&mut deserializer, &FULL_CHUNK);
    assert_eq!(message.timestamp, RtmpTimestamp::new(0x102));
    assert_eq!(message.type_id, 9);
    assert_eq!(message.message_stream_id, 0x0a0b0c0d);
    assert_eq!(message.data, vec![0xa1, 0xa2, 0xa3]);
}

#[test]
fn length_is_read_in_big_endian_order() {
    let mut bytes = vec![0x04, 0x00, 0x00, 0x00, 0x00, 0x01, 0x02, 0x09, 0x00, 0x00, 0x00, 0x00];
    bytes.extend(vec![7_u8; 0x102]);
    let mut deserializer = deserializer_with_max(0x1000);
    let message = expect_message(&mut deserializer, &bytes);
    assert_eq!(message.data, vec![7_u8; 0x102]);
}

#[test]
fn extended_timestamp_is_read_in_big_endian_order() {
    let bytes = [
        0x04, 0xff, 0xff, 0xff, 0x00, 0x00, 0x01, 0x09, 0x00, 0x00, 0x00, 0x00, 0x01, 0x02, 0x03,
        0x04, 0x55,
    ];
    let mut deserializer = ChunkDeserializer::new();
    let message = expect_message(&mut deserializer, &bytes);
    assert_eq!(message.timestamp, RtmpTimestamp::new(0x01020304));
    assert_eq!(message.data, vec![0x55]);
}

#[test]
fn largest_short_timestamp_is_not_extended() {
    let bytes = [
        0x04, 0xff, 0xff, 0xfe, 0x00, 0x00, 0x01, 0x09, 0x00, 0x00, 0x00, 0x00, 0x55,
    ];
    let mut deserializer = ChunkDeserializer::new();
    let message = expect_message(&mut deserializer, &bytes);
    assert_eq!(message.timestamp, RtmpTimestamp::new(16777214));
}

#[test]
fn extended_delta_counts_from_the_previous_timestamp() {
    let mut deserializer = ChunkDeserializer::new();
    expect_message(&mut deserializer, &FULL_CHUNK);
    let bytes = [0x84, 0xff, 0xff, 0xff, 0x02, 0x00, 0x00, 0x00, 0xb1, 0xb2, 0xb3];
    let message = expect_message(&mut deserializer, &bytes);
    assert_eq!(message.timestamp, RtmpTimestamp::new(0x02000102));
}

#[test]
fn extended_delta_may_be_smaller_than_its_placeholder() {
    let mut deserializer = ChunkDeserializer::new();
    expect_message(&mut deserializer, &FULL_CHUNK);
    let bytes = [0x84, 0xff, 0xff, 0xff, 0x00, 0x00, 0x00, 0x05, 0xb1, 0xb2, 0xb3];
    let message = expect_message(&mut deserializer, &bytes);
    assert_eq!(message.timestamp, RtmpTimestamp::new(0x107));
}

#[test]
fn timestamps_roll_over() {
    let bytes = [
        0x04, 0xff, 0xff, 0xff, 0x00, 0x00, 0x01, 0x09, 0x00, 0x00, 0x00, 0x00, 0xff, 0xff, 0xff,
        0xff, 0x55, 0x84, 0x00, 0x00, 0x03, 0x66,
    ];
    let mut deserializer = ChunkDeserializer::new();
    assert_eq!(expect_message(&mut deserializer, &bytes).timestamp, RtmpTimestamp::new(u32::MAX));
    assert_eq!(expect_message(&mut deserializer, &[]).timestamp, RtmpTimestamp::new(2));
}

#[test]
fn timestamp_operations() {
    let mut timestamp = RtmpTimestamp::new(5);
    assert_eq!((timestamp + 7).value, 12);
    assert_eq!((timestamp + u32::MAX).value, 4);
    timestamp.set(99);
    assert_eq!(timestamp, RtmpTimestamp::new(99));
}

#[test]
fn repetition_applies_the_last_delta_again() {
    let mut deserializer = ChunkDeserializer::new();
    expect_message(&mut deserializer, &FULL_CHUNK);
    let message = expect_message(&mut deserializer, &[0xc4, 1, 2, 3]);
    assert_eq!(message.timestamp, RtmpTimestamp::new(0x102));
    let message = expect_message(&mut deserializer, &[0x84, 0x00, 0x00, 0x10, 1, 2, 3]);
    assert_eq!(message.timestamp, RtmpTimestamp::new(0x112));
    let message = expect_message(&mut deserializer, &[0xc4, 4, 5, 6]);
    assert_eq!(message.timestamp, RtmpTimestamp::new(0x122));
    assert_eq!(message.type_id, 9);
    assert_eq!(message.message_stream_id, 0x0a0b0c0d);
    assert_eq!(message.data, vec![4, 5, 6]);
}

#[test]
fn messages_come_out_one_per_call_and_in_order() {
    let mut bytes = FULL_CHUNK.to_vec();
    bytes.extend(vec![0xc4, 1, 2, 3, 0xc4, 4, 5]);
    let mut deserializer = ChunkDeserializer::new();
    assert_eq!(expect_message(&mut deserializer, &bytes).data, vec![0xa1, 0xa2, 0xa3]);
    assert_eq!(expect_message(&mut deserializer, &[]).data, vec![1, 2, 3]);
    expect_none(&mut deserializer, &[]);
    expect_none(&mut deserializer, &[]);
    assert_eq!(expect_message(&mut deserializer, &[6]).data, vec![4, 5, 6]);
    expect_none(&mut deserializer, &[]);
}

#[test]
fn messages_do_not_depend_on_the_pieces() {
    let stream = [
        &FULL_CHUNK[..],
        &[0x44, 0x00, 0x00, 0x05, 0x00, 0x00, 0x05, 0x08, 1, 2, 0xc4, 3, 4, 0xc4, 5][..],
        &[0x84, 0xff, 0xff, 0xff, 0x01, 0x00, 0x00, 0x00, 6, 7, 0xc4, 8, 9, 0xc4, 10][..],
    ]
    .concat();
    // The first message is longer than a chunk of two bytes, too.
    let mut stream_of_pairs = stream[..14].to_vec();
    stream_of_pairs.push(0xc4);
    stream_of_pairs.extend_from_slice(&stream[14..]);

    let mut at_once = deserializer_with_max(2);
    let mut expected = vec![expect_message(&mut at_once, &stream_of_pairs)];
    while let Some(message) = at_once.get_next_message(&[]).unwrap() {
        expected.push(message);
    }
    assert_eq!(expected.len(), 3);
    assert_eq!(expected[0].data, vec![0xa1, 0xa2, 0xa3]);
    assert_eq!(expected[1].data, vec![1, 2, 3, 4, 5]);
    assert_eq!(expected[1].timestamp, RtmpTimestamp::new(0x107));
    assert_eq!(expected[1].type_id, 8);
    assert_eq!(expected[2].data, vec![6, 7, 8, 9, 10]);
    assert_eq!(expected[2].timestamp, RtmpTimestamp::new(0x01000107));

    for size in 1..stream_of_pairs.len() {
        let mut deserializer = deserializer_with_max(2);
        let mut messages = vec![];
        for piece in stream_of_pairs.chunks(size) {
            let mut next = deserializer.get_next_message(piece).unwrap();
            while let Some(message) = next {
                messages.push(message);
                next = deserializer.get_next_message(&[]).unwrap();
            }
        }
        assert_eq!(messages, expected);
    }
}

#[test]
fn empty_message_is_complete_without_data() {
    let bytes = [0x04, 0x00, 0x00, 0x00, 0x00, 0x00, 0x00, 0x09, 0x00, 0x00, 0x00, 0x00];
    let mut deserializer = deserializer_with_max(0);
    let message = expect_message(&mut deserializer, &bytes);
    assert_eq!(message.type_id, 9);
    assert!(message.data.is_empty());
}

#[test]
fn chunks_without_room_carry_no_data() {
    let bytes = [0x04, 0, 0, 0, 0, 0, 1, 9, 0, 0, 0, 0, 0xc4, 0xc4];
    let mut deserializer = deserializer_with_max(0);
    expect_none(&mut deserializer, &bytes);
    deserializer.set_max_chunk_size(1).unwrap();
    assert_eq!(expect_message(&mut deserializer, &[0xc4, 0x77]).data, vec![0x77]);
}

#[test]
fn message_that_outgrows_its_announcement_takes_full_chunks() {
    // Three bytes of one message, then a header that announces a shorter message.
    let mut deserializer = deserializer_with_max(1);
    let first = [0x04, 0, 0, 0, 0, 0, 9, 9, 0, 0, 0, 0, 1, 0xc4, 2, 0xc4, 3];
    expect_none(&mut deserializer, &first);
    let shorter = [0x04, 0, 0, 0, 0, 0, 2, 9, 0, 0, 0, 0, 4];
    expect_none(&mut deserializer, &shorter);
    // With a length of five the message is complete after one more chunk.
    let longer = [0x04, 0, 0, 0, 0, 0, 5, 9, 0, 0, 0, 0, 5];
    assert_eq!(expect_message(&mut deserializer, &longer).data, vec![1, 2, 3, 4, 5]);
}

#[test]
fn chunk_without_a_previous_one_is_refused_for_good() {
    let mut deserializer = ChunkDeserializer::new();
    expect_no_previous_chunk(&mut deserializer, &[0xc5], 5);
    expect_no_previous_chunk(&mut deserializer, &[], 5);
    expect_no_previous_chunk(&mut deserializer, &FULL_CHUNK, 5);
}

#[test]
fn chunk_streams_do_not_share_headers() {
    let mut deserializer = ChunkDeserializer::new();
    expect_message(&mut deserializer, &FULL_CHUNK);
    expect_no_previous_chunk(&mut deserializer, &[0x80, 0x00], 64);
}

#[test]
fn each_format_but_the_full_one_needs_a_previous_chunk() {
    expect_no_previous_chunk(&mut ChunkDeserializer::new(), &[0x43], 3);
    expect_no_previous_chunk(&mut ChunkDeserializer::new(), &[0x83], 3);
    expect_no_previous_chunk(&mut ChunkDeserializer::new(), &[0xc3], 3);
    expect_none(&mut ChunkDeserializer::new(), &[0x03]);
}

#[test]
fn ids_of_all_widths_name_the_same_chunk_stream() {
    // Chunk stream 100 in two bytes, and then in three.
    let bytes = [
        0x00, 36, 0, 0, 1, 0, 0, 1, 9, 0, 0, 0, 0, 0x11, 0xc1, 36, 0, 0x22,
    ];
    let mut deserializer = ChunkDeserializer::new();
    assert_eq!(expect_message(&mut deserializer, &bytes).data, vec![0x11]);
    assert_eq!(expect_message(&mut deserializer, &[]).data, vec![0x22]);
}

#[test]
fn maximum_chunk_size_bounds() {
    let mut deserializer = ChunkDeserializer::new();
    assert!(deserializer.set_max_chunk_size(2147483647).is_ok());
    assert!(deserializer.set_max_chunk_size(2147483648).is_err());
    assert!(deserializer.set_max_chunk_size(0).is_ok());
}

#[test]
fn refused_maximum_chunk_size_changes_nothing() {
    let mut deserializer = deserializer_with_max(2);
    assert!(deserializer.set_max_chunk_size(usize::MAX).is_err());
    let bytes = [0x04, 0, 0, 0, 0, 0, 3, 9, 0, 0, 0, 0, 1, 2, 0xc4, 3];
    assert_eq!(expect_message(&mut deserializer, &bytes).data, vec![1, 2, 3]);
}

#[test]
fn formats_are_the_two_top_bits() {
    assert_eq!(get_format(&0x00), ChunkHeaderFormat::Full);
    assert_eq!(get_format(&0x3f), ChunkHeaderFormat::Full);
    assert_eq!(get_format(&0x40), ChunkHeaderFormat::TimeDeltaWithoutMessageStreamId);
    assert_eq!(get_format(&0x7f), ChunkHeaderFormat::TimeDeltaWithoutMessageStreamId);
    assert_eq!(get_format(&0x80), ChunkHeaderFormat::TimeDeltaOnly);
    assert_eq!(get_format(&0xbf), ChunkHeaderFormat::TimeDeltaOnly);
    assert_eq!(get_format(&0xc0), ChunkHeaderFormat::Empty);
    assert_eq!(get_format(&0xff), ChunkHeaderFormat::Empty);
}

#[test]
fn chunk_stream_ids_of_all_widths() {
    assert_eq!(get_csid(&vec![]), ParsedValue::NotEnoughBytes);
    assert_eq!(get_csid(&vec![0x02]), ParsedValue::Value { val: 2, next_index: 1 });
    assert_eq!(get_csid(&vec![0xff, 9]), ParsedValue::Value { val: 63, next_index: 1 });
    assert_eq!(get_csid(&vec![0x40]), ParsedValue::NotEnoughBytes);
    assert_eq!(get_csid(&vec![0x40, 0]), ParsedValue::Value { val: 64, next_index: 2 });
    assert_eq!(get_csid(&vec![0x00, 255, 9]), ParsedValue::Value { val: 319, next_index: 2 });
    assert_eq!(get_csid(&vec![0x01, 1]), ParsedValue::NotEnoughBytes);
    assert_eq!(get_csid(&vec![0x01, 0, 0]), ParsedValue::Value { val: 64, next_index: 3 });
    assert_eq!(get_csid(&vec![0x81, 1, 2]), ParsedValue::Value { val: 577, next_index: 3 });
    assert_eq!(get_csid(&vec![0x01, 255, 255]), ParsedValue::Value { val: 65599, next_index: 3 });
}

#[test]
fn new_values_are_blank() {
    let header = ChunkHeader::new();
    assert_eq!(header.chunk_stream_id, 0);
    assert_eq!(header.timestamp, RtmpTimestamp::new(0));
    assert_eq!(header.message_length, 0);
    let payload = MessagePayload::new();
    assert_eq!(payload.timestamp, RtmpTimestamp::new(0));
    assert!(payload.data.is_empty());
}

#[test]
fn io_errors_are_carried_through() {
    let source = std::io::Error::new(std::io::ErrorKind::UnexpectedEof, "end");
    match ChunkDeserializationError::from(source).kind {
        ChunkDeserializationErrorKind::Io(error) => {
            assert_eq!(error.kind(), std::io::ErrorKind::UnexpectedEof)
        }
        x => panic!("Unexpected kind {:?}", x),
    }
}

#[test]
fn headers_outlast_a_change_of_the_maximum_chunk_size() {
    let mut deserializer = deserializer_with_max(2);
    let first = [0x04, 0, 0, 7, 0, 0, 3, 9, 0, 0, 0, 0, 1, 2, 0xc4, 3];
    assert_eq!(expect_message(&mut deserializer, &first).data, vec![1, 2, 3]);
    deserializer.set_max_chunk_size(1).unwrap();
    let message = expect_message(&mut deserializer, &[0x84, 0, 0, 5, 4, 0xc4, 5, 0xc4, 6]);
    assert_eq!(message.timestamp, RtmpTimestamp::new(12));
    assert_eq!(message.type_id, 9);
    assert_eq!(message.data, vec![4, 5, 6]);
    expect_none(&mut deserializer, &[]);
}
