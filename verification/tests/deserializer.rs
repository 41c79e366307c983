use byteorder::{BigEndian, LittleEndian, WriteBytesExt};
use rtmp::{
    ChunkDeserializationError, ChunkDeserializationErrorKind, ChunkDeserializer, RtmpTimestamp,
    INITIAL_MAX_CHUNK_SIZE,
};
use std::io::{Cursor, Write};

const CHUNK_SIZE_VALUE: usize = 2147483648;

#[test]
fn can_read_type_0_chunk_with_small_chunk_stream_id_and_small_timestamp() {
    let csid = 50;
    let timestamp = 25u32;
    let message_stream_id = 5u32;
    let type_id = 3;
    let payload = [1_u8, 2_u8, 3_u8];

    let bytes = form_type_0_chunk(csid, timestamp, message_stream_id, type_id, &payload, INITIAL_MAX_CHUNK_SIZE);
    let mut deserializer = ChunkDeserializer::new();
    let result = deserializer.get_next_message(&bytes).unwrap().unwrap();

    assert_eq!(result.type_id, 3, "Incorrect type id");
    assert_eq!(result.timestamp, RtmpTimestamp::new(timestamp), "Incorrect timestamp");
    assert_eq!(&result.data[..], &payload[..], "Incorrect data");
}

#[test]
fn can_read_type_0_chunk_with_medium_chunk_stream_id_and_small_timestamp() {
    let csid = 500;
    let timestamp = 25u32;
    let message_stream_id = 5u32;
    let type_id = 3;
    let payload = [1_u8, 2_u8, 3_u8];

    let bytes = form_type_0_chunk(csid, timestamp, message_stream_id, type_id, &payload, INITIAL_MAX_CHUNK_SIZE);
    let mut deserializer = ChunkDeserializer::new();
    let result = deserializer.get_next_message(&bytes).unwrap().unwrap();

    assert_eq!(result.type_id, 3, "Incorrect type id");
    assert_eq!(result.timestamp, RtmpTimestamp::new(timestamp), "Incorrect timestamp");
    assert_eq!(&result.data[..], &payload[..], "Incorrect data");
}

#[test]
fn can_read_type_0_chunk_with_large_chunk_stream_id_and_small_timestamp() {
    let csid = 50000;
    let timestamp = 25u32;
    let message_stream_id = 5u32;
    let type_id = 3;
    let payload = [1_u8, 2_u8, 3_u8];

    let bytes = form_type_0_chunk(csid, timestamp, message_stream_id, type_id, &payload, INITIAL_MAX_CHUNK_SIZE);
    let mut deserializer = ChunkDeserializer::new();
    let result = deserializer.get_next_message(&bytes).unwrap().unwrap();

    assert_eq!(result.type_id, 3, "Incorrect type id");
    assert_eq!(result.timestamp, RtmpTimestamp::new(timestamp), "Incorrect timestamp");
    assert_eq!(&result.data[..], &payload[..], "Incorrect data");
}

#[test]
fn can_read_type_0_chunk_with_small_chunk_stream_id_and_large_timestamp() {
    let csid = 50;
    let timestamp = 16777216u32;
    let message_stream_id = 5u32;
    let type_id = 3;
    let payload = [1_u8, 2_u8, 3_u8];

    let bytes = form_type_0_chunk(csid, timestamp, message_stream_id, type_id, &payload, INITIAL_MAX_CHUNK_SIZE);
    let mut deserializer = ChunkDeserializer::new();
    let result = deserializer.get_next_message(&bytes).unwrap().unwrap();

    assert_eq!(result.type_id, 3, "Incorrect type id");
    assert_eq!(result.timestamp, RtmpTimestamp::new(timestamp), "Incorrect timestamp");
    assert_eq!(&result.data[..], &payload[..], "Incorrect data");
}

#[test]
fn can_read_type_0_chunk_with_medium_chunk_stream_id_and_large_timestamp() {
    let csid = 500;
    let timestamp = 16777216u32;
    let message_stream_id = 5u32;
    let type_id = 3;
    let payload = [1_u8, 2_u8, 3_u8];

    let bytes = form_type_0_chunk(csid, timestamp, message_stream_id, type_id, &payload, INITIAL_MAX_CHUNK_SIZE);
    let mut deserializer = ChunkDeserializer::new();
    let result = deserializer.get_next_message(&bytes).unwrap().unwrap();

    assert_eq!(result.type_id, 3, "Incorrect type id");
    assert_eq!(result.timestamp, RtmpTimestamp::new(timestamp), "Incorrect timestamp");
    assert_eq!(&result.data[..], &payload[..], "Incorrect data");
}

#[test]
fn can_read_type_0_chunk_with_large_chunk_stream_id_and_large_timestamp() {
    let csid = 50000;
    let timestamp = 16777216u32;
    let message_stream_id = 5u32;
    let type_id = 3;
    let payload = [1_u8, 2_u8, 3_u8];

    let bytes = form_type_0_chunk(csid, timestamp, message_stream_id, type_id, &payload, INITIAL_MAX_CHUNK_SIZE);
    let mut deserializer = ChunkDeserializer::new();
    let result = deserializer.get_next_message(&bytes).unwrap().unwrap();

    assert_eq!(result.type_id, 3, "Incorrect type id");
    assert_eq!(result.timestamp, RtmpTimestamp::new(timestamp), "Incorrect timestamp");
    assert_eq!(&result.data[..], &payload[..], "Incorrect data");
}

#[test]
fn can_read_type_1_chunk_with_small_chunk_stream_id_and_small_timestamp() {
    let csid = 50;
    let timestamp = 25u32;
    let delta = 10_u32;
    let message_stream_id = 5u32;
    let type_id1 = 3;
    let type_id2 = 4;
    let payload = [1_u8, 2_u8, 3_u8];

    let chunk_0_bytes = form_type_0_chunk(csid, timestamp, message_stream_id, type_id1, &payload, INITIAL_MAX_CHUNK_SIZE);
    let chunk_1_bytes = form_type_1_chunk(csid, delta, type_id2, &payload);
    let mut deserializer = ChunkDeserializer::new();
    let _ = deserializer.get_next_message(&chunk_0_bytes).unwrap().unwrap();
    let result = deserializer.get_next_message(&chunk_1_bytes).unwrap().unwrap();

    assert_eq!(result.type_id, type_id2, "Incorrect type id");
    assert_eq!(result.timestamp, RtmpTimestamp::new(timestamp + delta), "Incorrect timestamp");
    assert_eq!(&result.data[..], &payload[..], "Incorrect data");
}

#[test]
fn can_read_type_2_chunk_with_small_chunk_stream_id_and_small_timestamp() {
    let csid = 50;
    let timestamp = 25u32;
    let delta1 = 10_u32;
    let delta2 = 11_u32;
    let message_stream_id = 5u32;
    let type_id1 = 3;
    let type_id2 = 4;
    let payload = [1_u8, 2_u8, 3_u8];

    let chunk_0_bytes = form_type_0_chunk(csid, timestamp, message_stream_id, type_id1, &payload, INITIAL_MAX_CHUNK_SIZE);
    let chunk_1_bytes = form_type_1_chunk(csid, delta1, type_id2, &payload);
    let chunk_2_bytes = form_type_2_chunk(csid, delta2, &payload);
    let mut deserializer = ChunkDeserializer::new();
    let _ = deserializer.get_next_message(&chunk_0_bytes).unwrap().unwrap();
    let _ = deserializer.get_next_message(&chunk_1_bytes).unwrap().unwrap();
    let result = deserializer.get_next_message(&chunk_2_bytes).unwrap().unwrap();

    assert_eq!(result.type_id, type_id2, "Incorrect type id");
    assert_eq!(result.timestamp, RtmpTimestamp::new(timestamp + delta1 + delta2), "Incorrect timestamp");
    assert_eq!(&result.data[..], &payload[..], "Incorrect data");
}

#[test]
fn can_read_type_2_chunk_with_small_chunk_stream_id_and_large_timestamp()
{
    let csid = 50;
    let timestamp = 25u32;
    let delta1 = 10_u32;
    let delta2 = 16777216_u32;
    let message_stream_id = 5u32;
    let type_id1 = 3;
    let type_id2 = 4;
    let payload = [1_u8, 2_u8, 3_u8];

    let chunk_0_bytes = form_type_0_chunk(csid, timestamp, message_stream_id, type_id1, &payload, INITIAL_MAX_CHUNK_SIZE);
    let chunk_1_bytes = form_type_1_chunk(csid, delta1, type_id2, &payload);
    let chunk_2_bytes = form_type_2_chunk(csid, delta2, &payload);
    let mut deserializer = ChunkDeserializer::new();
    let _ = deserializer.get_next_message(&chunk_0_bytes).unwrap().unwrap();
    let _ = deserializer.get_next_message(&chunk_1_bytes).unwrap().unwrap();
    let result = deserializer.get_next_message(&chunk_2_bytes).unwrap().unwrap();

    assert_eq!(result.type_id, type_id2, "Incorrect type id");
    assert_eq!(result.timestamp, RtmpTimestamp::new(timestamp + delta1 + delta2), "Incorrect timestamp");
    assert_eq!(&result.data[..], &payload[..], "Incorrect data");
}

#[test]
fn can_read_type_3_chunk_with_small_chunk_stream_id_and_small_timestamp() {
    let csid = 50;
    let timestamp = 25u32;
    let delta1 = 10_u32;
    let delta2 = 11_u32;
    let message_stream_id = 5u32;
    let type_id1 = 3;
    let type_id2 = 4;
    let payload = [1_u8, 2_u8, 3_u8];

    let chunk_0_bytes = form_type_0_chunk(csid, timestamp, message_stream_id, type_id1, &payload, INITIAL_MAX_CHUNK_SIZE);
    let chunk_1_bytes = form_type_1_chunk(csid, delta1, type_id2, &payload);
    let chunk_2_bytes = form_type_2_chunk(csid, delta2, &payload);
    let chunk_3_bytes = form_type_3_chunk(csid, &payload, INITIAL_MAX_CHUNK_SIZE);
    let mut deserializer = ChunkDeserializer::new();
    let _ = deserializer.get_next_message(&chunk_0_bytes).unwrap().unwrap();
    let _ = deserializer.get_next_message(&chunk_1_bytes).unwrap().unwrap();
    let _ = deserializer.get_next_message(&chunk_2_bytes).unwrap().unwrap();
    let result = deserializer.get_next_message(&chunk_3_bytes).unwrap().unwrap();

    assert_eq!(result.type_id, type_id2, "Incorrect type id");
    assert_eq!(result.timestamp, RtmpTimestamp::new(timestamp + delta1 + delta2 + delta2), "Incorrect timestamp");
    assert_eq!(&result.data[..], &payload[..], "Incorrect data");
}

#[test]
fn can_read_type_3_chunk_with_small_chunk_stream_id_and_large_timestamp() {
    let csid = 50;
    let timestamp = 10_u32;
    let delta1 = 10_u32;
    let delta2 = 16777216_u32;
    let message_stream_id = 5u32;
    let type_id1 = 3;
    let type_id2 = 4;
    let payload = [1_u8, 2_u8, 3_u8];

    let chunk_0_bytes = form_type_0_chunk(csid, timestamp, message_stream_id, type_id1, &payload, INITIAL_MAX_CHUNK_SIZE);
    let chunk_1_bytes = form_type_1_chunk(csid, delta1, type_id2, &payload);
    let chunk_2_bytes = form_type_2_chunk(csid, delta2, &payload);
    let chunk_3_bytes = form_type_3_chunk(csid, &payload, INITIAL_MAX_CHUNK_SIZE);
    let mut deserializer = ChunkDeserializer::new();
    let _ = deserializer.get_next_message(&chunk_0_bytes).unwrap().unwrap();
    let _ = deserializer.get_next_message(&chunk_1_bytes).unwrap().unwrap();
    let _ = deserializer.get_next_message(&chunk_2_bytes).unwrap().unwrap();
    let result = deserializer.get_next_message(&chunk_3_bytes).unwrap().unwrap();

    assert_eq!(result.type_id, type_id2, "Incorrect type id");
    assert_eq!(result.timestamp, RtmpTimestamp::new(timestamp + delta1 + delta2 + delta2), "Incorrect timestamp");
    assert_eq!(&result.data[..], &payload[..], "Incorrect data");
}

#[test]
fn can_read_message_spread_across_multiple_deserialization_calls() {
    let csid = 50;
    let timestamp = 25u32;
    let message_stream_id = 5u32;
    let type_id = 3;
    let payload = [1_u8, 2_u8, 3_u8];

    let all_bytes = form_type_0_chunk(csid, timestamp, message_stream_id, type_id, &payload, INITIAL_MAX_CHUNK_SIZE);
    let (first, second) = all_bytes.split_at(all_bytes.len() / 2);
    let mut deserializer = ChunkDeserializer::new();
    match deserializer.get_next_message(first).unwrap() {
        Some(x) => panic!("Expected None but received {:?}", x),
        None => (),
    };

    let result = deserializer.get_next_message(second).unwrap().unwrap();

    assert_eq!(result.type_id, 3, "Incorrect type id");
    assert_eq!(result.timestamp, RtmpTimestamp::new(timestamp), "Incorrect timestamp");
    assert_eq!(&result.data[..], &payload[..], "Incorrect data");
}

#[test]
fn can_read_message_exceeding_maximum_chunk_size() {
    let csid = 50;
    let timestamp = 25u32;
    let message_stream_id = 5u32;
    let type_id = 3;
    let payload = [100_u8; 500];
    let max_chunk_size = 100;

    let bytes = form_type_0_chunk(csid, timestamp, message_stream_id, type_id, &payload, max_chunk_size);
    let mut deserializer = ChunkDeserializer::new();
    deserializer.set_max_chunk_size(max_chunk_size).unwrap();
    let result = deserializer.get_next_message(&bytes).unwrap().unwrap();

    assert_eq!(result.type_id, 3, "Incorrect type id");
    assert_eq!(result.timestamp, RtmpTimestamp::new(timestamp), "Incorrect timestamp");
    assert_eq!(&result.data[..], &payload[..], "Incorrect data");
}

#[test]
fn error_when_setting_chunk_size_too_large() {
    let mut deserializer = ChunkDeserializer::new();
    match deserializer.set_max_chunk_size(CHUNK_SIZE_VALUE) {
        Err(ChunkDeserializationError {
                kind: ChunkDeserializationErrorKind::InvalidMaxChunkSize {chunk_size: CHUNK_SIZE_VALUE}
            }) => {}, // success
        x => panic!("Unexpected set max chunk size result of {:?}", x),
    }
}

#[test]
fn type_2_chunk_that_exceeds_max_chunk_size_does_not_keep_applying_delta_to_timestamp() {
    // It was noticed that OBS does not totally conform to the RTMP specification.  It will
    // send a type 1 chunk with a time delta for a video packet, but will send the remaining
    // parts of that chunk with a type 3 header (even though the delta should not be applied).
    // this test verifies we can handle that.

    let chunk1 = [0x04, 0x00, 0x00, 0x00, 0x00, 0x00, 0x01, 0x09, 0x01, 0x00, 0x00, 0x00, 0x01];
    let chunk2 = [0x44, 0x00, 0x00, 0x21, 0x00, 0x00, 0x05, 0x09, 0x01, 0x02, 0x03, 0x04, 0xc4, 0x05];

    let mut deserializer = ChunkDeserializer::new();
    deserializer.set_max_chunk_size(4).unwrap();

    let payload1 = deserializer.get_next_message(&chunk1).unwrap().unwrap();
    assert_eq!(payload1.type_id, 0x09, "Incorrect payload 1 type");
    assert_eq!(payload1.timestamp, RtmpTimestamp::new(0), "Incorrect payload 1 timestamp");
    assert_eq!(&payload1.data[..], &[0x01], "Incorrect payload 1 data");

    let payload2 = deserializer.get_next_message(&chunk2).unwrap().unwrap();
    assert_eq!(payload2.type_id, 0x09, "Incorrect payload 2 type");
    assert_eq!(payload2.timestamp, RtmpTimestamp::new(33), "Incorrect payload 2 timestamp");
    assert_eq!(&payload2.data[..], &[0x01, 0x02, 0x03, 0x04, 0x05], "Incorrect payload 2 data");
}

fn form_type_0_chunk(csid: u32, timestamp: u32, message_stream_id: u32, type_id: u8, payload: &[u8], max_chunk_length: usize) -> Vec<u8> {
    let mut cursor = Cursor::new(Vec::new());
    if csid < 64 {
        cursor.write_u8(csid as u8).unwrap();
    } else if csid < 319 {
        cursor.write_u8(0_u8).unwrap();
        cursor.write_u8((csid - 64) as u8).unwrap();
    } else {
        cursor.write_u8(1_u8).unwrap();
        cursor.write_u16::<BigEndian>((csid - 64) as u16).unwrap();
    }

    let standard_timestamp = if timestamp >= 16777215 { 16777215 } else { timestamp };
    cursor.write_u24::<BigEndian>(standard_timestamp).unwrap();
    cursor.write_u24::<BigEndian>(payload.len() as u32).unwrap();
    cursor.write_u8(type_id).unwrap();
    cursor.write_u32::<LittleEndian>(message_stream_id).unwrap();

    if timestamp > 16777215 {
        cursor.write_u32::<BigEndian>(timestamp).unwrap();
    }

    // If the payload is over max_chunk_length, assume we want to form a split message
    // and therefore need to only write the max chunk amount of the payload in this request
    // and append a type 3 chunk with the rest
    if payload.len() > max_chunk_length {
        cursor.write(&payload[..max_chunk_length]).unwrap();

        let next_chunk = form_type_3_chunk(csid, &payload[max_chunk_length..], max_chunk_length);
        cursor.write(&next_chunk).unwrap();
    } else {
        cursor.write(payload).unwrap();
    }

    cursor.into_inner()
}

fn form_type_1_chunk(csid: u32, delta: u32, type_id: u8, payload: &[u8]) -> Vec<u8> {
    let mut cursor = Cursor::new(Vec::new());
    if csid < 64 {
        cursor.write_u8((csid as u8) | 0b01000000).unwrap();
    } else if csid < 319 {
        cursor.write_u8(0_u8 | 0b01000000).unwrap();
        cursor.write_u8((csid - 64) as u8).unwrap();
    } else {
        cursor.write_u8(1_u8 | 0b01000000).unwrap();
        cursor.write_u16::<BigEndian>((csid - 64) as u16).unwrap();
    }

    let standard_timestamp = if delta >= 16777215 { 16777215 } else { delta };
    cursor.write_u24::<BigEndian>(standard_timestamp).unwrap();
    cursor.write_u24::<BigEndian>(payload.len() as u32).unwrap();
    cursor.write_u8(type_id).unwrap();

    if delta > 16777215 {
        cursor.write_u32::<BigEndian>(delta).unwrap();
    }

    cursor.write(payload).unwrap();

    cursor.into_inner()
}

fn form_type_2_chunk(csid: u32, delta: u32,  payload: &[u8]) -> Vec<u8> {
    let mut cursor = Cursor::new(Vec::new());
    if csid < 64 {
        cursor.write_u8((csid as u8) | 0b10000000).unwrap();
    } else if csid < 319 {
        cursor.write_u8(0_u8 | 0b10000000).unwrap();
        cursor.write_u8((csid - 64) as u8).unwrap();
    } else {
        cursor.write_u8(1_u8 | 0b10000000).unwrap();
        cursor.write_u16::<BigEndian>((csid - 64) as u16).unwrap();
    }

    let standard_timestamp = if delta >= 16777215 { 16777215 } else { delta };
    cursor.write_u24::<BigEndian>(standard_timestamp).unwrap();

    if delta > 16777215 {
        cursor.write_u32::<BigEndian>(delta).unwrap();
    }

    cursor.write(payload).unwrap();

    cursor.into_inner()
}

fn form_type_3_chunk(csid: u32, payload: &[u8], max_chunk_length: usize) -> Vec<u8> {
    let mut cursor = Cursor::new(Vec::new());
    if csid < 64 {
        cursor.write_u8((csid as u8) | 0b11000000).unwrap();
    } else if csid < 319 {
        cursor.write_u8(0_u8 | 0b11000000).unwrap();
        cursor.write_u8((csid - 64) as u8).unwrap();
    } else {
        cursor.write_u8(1_u8 | 0b11000000).unwrap();
        cursor.write_u16::<BigEndian>((csid - 64) as u16).unwrap();
    }

    // If the payload is over max_chunk_length, assume we want to form a split message
    // and therefore need to only write the max chunk amount of the payload in this request
    // and append a type 3 chunk with the rest
    if payload.len() > max_chunk_length {
        cursor.write(&payload[..max_chunk_length]).unwrap();

        let next_chunk = form_type_3_chunk(csid, &payload[max_chunk_length..], max_chunk_length);
        cursor.write(&next_chunk).unwrap();
    } else {
        cursor.write(payload).unwrap();
    }

    cursor.into_inner()
}
