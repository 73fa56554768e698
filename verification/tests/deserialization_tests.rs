use rtmp_codec::deserialization::{DeserializationError, Deserializer};

fn get_type_0_chunk(
    csid: u8,
    timestamp: u32,
    message_stream_id: u32,
    type_id: u8,
    payload: Vec<u8>,
) -> Vec<u8> {
    let mut bytes = vec![
        csid,
        0,
        0,
        timestamp as u8,
        0,
        0,
        payload.len() as u8,
        type_id,
        message_stream_id as u8,
        0,
        0,
        0,
    ];
    bytes.extend_from_slice(&payload);

    bytes
}

fn get_type_1_chunk(csid: u8, delta: u32, type_id: u8, payload: Vec<u8>) -> Vec<u8> {
    let mut bytes = vec![csid | 0b01000000, 0, 0, delta as u8, 0, 0, payload.len() as u8, type_id];
    bytes.extend_from_slice(&payload);

    bytes
}

fn get_type_2_chunk(csid: u8, delta: u32, payload: Vec<u8>) -> Vec<u8> {
    let mut bytes = vec![csid | 0b10000000, 0, 0, delta as u8];
    bytes.extend_from_slice(&payload);

    bytes
}

fn get_type_3_chunk(csid: u8, payload: Vec<u8>) -> Vec<u8> {
    let mut bytes = vec![csid | 0b11000000];
    bytes.extend_from_slice(&payload);

    bytes
}

#[test]
fn type_0_chunk_with_small_stream_id() {
    let csid = 50u8;
    let timestamp = 25u32;
    let message_stream_id = 5u32;
    let type_id = 3;
    let payload = vec![1, 2, 3];
    let length = payload.len() as u8;

    let mut bytes = vec![
        csid,
        0,
        0,
        timestamp as u8,
        0,
        0,
        length,
        type_id,
        message_stream_id as u8,
        0,
        0,
        0,
    ];
    bytes.extend_from_slice(&payload);

    let mut deserializer = Deserializer::new();
    let result = deserializer.process_bytes(&bytes).unwrap();

    assert_eq!(1, result.len());
    assert_eq!(timestamp, result[0].timestamp.value);
    assert_eq!(type_id, result[0].type_id);
    assert_eq!(message_stream_id, result[0].stream_id);
    assert_eq!(payload, result[0].data);
}

#[test]
fn type_0_chunk_with_medium_stream_id() {
    let csid = 200u8;
    let timestamp = 25u32;
    let message_stream_id = 5u32;
    let type_id = 3;
    let payload = vec![1, 2, 3];
    let length = payload.len() as u8;

    let mut bytes = vec![
        0,
        csid,
        0,
        0,
        timestamp as u8,
        0,
        0,
        length,
        type_id,
        message_stream_id as u8,
        0,
        0,
        0,
    ];
    bytes.extend_from_slice(&payload);

    let mut deserializer = Deserializer::new();
    let result = deserializer.process_bytes(&bytes).unwrap();

    assert_eq!(1, result.len());
    assert_eq!(timestamp, result[0].timestamp.value);
    assert_eq!(type_id, result[0].type_id);
    assert_eq!(message_stream_id, result[0].stream_id);
    assert_eq!(payload, result[0].data);
}

#[test]
fn type_0_chunk_with_large_stream_id() {
    let timestamp = 25u32;
    let message_stream_id = 5u32;
    let type_id = 3;
    let payload = vec![1, 2, 3];
    let length = payload.len() as u8;

    let mut bytes = vec![
        1,
        234,
        97,
        0,
        0,
        timestamp as u8,
        0,
        0,
        length,
        type_id,
        message_stream_id as u8,
        0,
        0,
        0,
    ];
    bytes.extend_from_slice(&payload);

    let mut deserializer = Deserializer::new();
    let result = deserializer.process_bytes(&bytes).unwrap();

    assert_eq!(1, result.len());
    assert_eq!(timestamp, result[0].timestamp.value);
    assert_eq!(type_id, result[0].type_id);
    assert_eq!(message_stream_id, result[0].stream_id);
    assert_eq!(payload, result[0].data);
}

#[test]
fn can_read_full_type_1_chunk() {
    let csid = 50;
    let timestamp = 20;
    let delta = 10;
    let message_stream_id = 52;
    let type_id = 3;
    let payload1 = vec![1, 2, 3];
    let payload2 = vec![1, 2, 3];

    let chunk_0_bytes = get_type_0_chunk(csid, timestamp, message_stream_id, type_id, payload1);

    let length = payload2.len() as u8;
    let mut chunk_1_bytes = vec![csid | 0b01000000, 0, 0, delta as u8, 0, 0, length, type_id];
    chunk_1_bytes.extend_from_slice(&payload2);

    let mut deserializer = Deserializer::new();
    deserializer.process_bytes(&chunk_0_bytes).unwrap();

    let result = deserializer.process_bytes(&chunk_1_bytes).unwrap();

    assert_eq!(1, result.len());
    assert_eq!(timestamp + delta, result[0].timestamp.value);
    assert_eq!(type_id, result[0].type_id);
    assert_eq!(message_stream_id, result[0].stream_id);
    assert_eq!(payload2, result[0].data);
}

#[test]
fn can_read_full_type_2_chunk() {
    let csid = 50;
    let timestamp = 20;
    let delta1 = 10;
    let delta2 = 12;
    let message_stream_id = 52;
    let type_id = 3;
    let payload1 = vec![1, 2, 3];
    let payload2 = vec![1, 2, 3];
    let payload3 = vec![2, 2, 2];

    let chunk_0_bytes = get_type_0_chunk(csid, timestamp, message_stream_id, type_id, payload1);
    let chunk_1_bytes = get_type_1_chunk(csid, delta1, type_id, payload2);
    let chunk_2_bytes = get_type_2_chunk(csid, delta2, payload3);

    let mut deserializer = Deserializer::new();
    deserializer.process_bytes(&chunk_0_bytes).unwrap();
    deserializer.process_bytes(&chunk_1_bytes).unwrap();

    let result = deserializer.process_bytes(&chunk_2_bytes).unwrap();

    assert_eq!(1, result.len());
    assert_eq!(timestamp + delta1 + delta2, result[0].timestamp.value);
    assert_eq!(type_id, result[0].type_id);
    assert_eq!(message_stream_id, result[0].stream_id);
    assert_eq!(vec![2, 2, 2], result[0].data);
}

#[test]
fn can_read_full_type_3_chunk() {
    let csid = 50;
    let timestamp = 20;
    let delta1 = 10;
    let delta2 = 12;
    let message_stream_id = 52;
    let type_id = 3;
    let payload1 = vec![1, 2, 3];
    let payload2 = vec![1, 2, 3];
    let payload3 = vec![2, 2, 2];
    let payload4 = vec![4, 4, 4];

    let chunk_0_bytes = get_type_0_chunk(csid, timestamp, message_stream_id, type_id, payload1);
    let chunk_1_bytes = get_type_1_chunk(csid, delta1, type_id, payload2);
    let chunk_2_bytes = get_type_2_chunk(csid, delta2, payload3);
    let chunk_3_bytes = get_type_3_chunk(csid, payload4);

    let mut deserializer = Deserializer::new();
    deserializer.process_bytes(&chunk_0_bytes).unwrap();
    deserializer.process_bytes(&chunk_1_bytes).unwrap();
    deserializer.process_bytes(&chunk_2_bytes).unwrap();

    let result = deserializer.process_bytes(&chunk_3_bytes).unwrap();

    assert_eq!(1, result.len());
    assert_eq!(timestamp + delta1 + delta2 + delta2, result[0].timestamp.value);
    assert_eq!(type_id, result[0].type_id);
    assert_eq!(message_stream_id, result[0].stream_id);
    assert_eq!(vec![4, 4, 4], result[0].data);
}

#[test]
fn can_read_single_chunk_spread_across_multiple_calls() {
    let csid = 50u8;
    let timestamp = 25u32;
    let message_stream_id = 5u32;
    let type_id = 3;
    let payload = vec![1, 2, 3];

    let full_chunk = get_type_0_chunk(csid, timestamp, message_stream_id, type_id, payload);
    let halfway_index = full_chunk.len() / 2;
    let first_half = full_chunk[..halfway_index].to_vec();
    let second_half = full_chunk[halfway_index..].to_vec();

    let mut deserializer = Deserializer::new();
    let result1 = deserializer.process_bytes(&first_half).unwrap();
    let result2 = deserializer.process_bytes(&second_half).unwrap();

    assert_eq!(0, result1.len());
    assert_eq!(1, result2.len());
    assert_eq!(timestamp, result2[0].timestamp.value);
    assert_eq!(type_id, result2[0].type_id);
    assert_eq!(message_stream_id, result2[0].stream_id);
    assert_eq!(vec![1, 2, 3], result2[0].data);
}

#[test]
fn can_read_messages_larger_than_max_chunk_size() {
    let csid = 50;
    let timestamp = 20;
    let message_stream_id = 52;
    let type_id = 3;
    let payload1 = vec![1, 1, 1];
    let payload2 = vec![2, 2, 2];

    let mut chunk_0_bytes = get_type_0_chunk(csid, timestamp, message_stream_id, type_id, payload1);
    let chunk_3_bytes = get_type_3_chunk(csid, payload2);
    chunk_0_bytes[6] = 6;

    let mut deserializer = Deserializer::new();
    deserializer.set_max_chunk_size(3);
    let result1 = deserializer.process_bytes(&chunk_0_bytes).unwrap();
    let result2 = deserializer.process_bytes(&chunk_3_bytes).unwrap();

    assert_eq!(0, result1.len());
    assert_eq!(1, result2.len());
    assert_eq!(timestamp, result2[0].timestamp.value);
    assert_eq!(type_id, result2[0].type_id);
    assert_eq!(message_stream_id, result2[0].stream_id);
    assert_eq!(vec![1, 1, 1, 2, 2, 2], result2[0].data);
}

#[test]
fn compressed_chunk_without_previous_header_is_rejected() {
    let bytes = get_type_2_chunk(50, 10, vec![]);

    let mut deserializer = Deserializer::new();
    let result = deserializer.process_bytes(&bytes);

    assert_eq!(result, Err(DeserializationError::NoPreviousChunkOnStream(50)));
}
