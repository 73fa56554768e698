use rtmp_codec::message_payload::MessagePayload;
use rtmp_codec::serialization::{SerializationError, Serializer};
use rtmp_codec::timestamp::RtmpTimestamp;

// Control messages (type ids 1 through 6) travel on chunk stream 2; type 5
// falls in that range.
const CONTROL_CSID: u8 = 2;

#[test]
fn first_message_for_csid_encodes_full_chunk() {
    let mut message = MessagePayload {
        timestamp: RtmpTimestamp::new(72),
        type_id: 5,
        data: vec![1, 2, 3],
        stream_id: 1,
    };

    let mut serializer = Serializer::new();
    let result = serializer.serialize(&message, false).unwrap();

    let mut expected = vec![
        CONTROL_CSID,
        0,
        0,
        message.timestamp.value as u8,
        0,
        0,
        message.data.len() as u8,
        message.type_id,
        message.stream_id as u8,
        0,
        0,
        0,
    ];
    expected.append(&mut message.data);

    assert_eq!(result, expected);
}

#[test]
fn second_chunk_with_same_sid_but_different_message_length() {
    let message1 = MessagePayload {
        timestamp: RtmpTimestamp::new(72),
        type_id: 5,
        data: vec![1, 2, 3],
        stream_id: 1,
    };

    let mut message2 = MessagePayload {
        timestamp: RtmpTimestamp::new(82),
        type_id: 5,
        data: vec![1, 2],
        stream_id: 1,
    };

    let mut serializer = Serializer::new();
    serializer.serialize(&message1, false).unwrap();

    let result = serializer.serialize(&message2, false).unwrap();

    // The 3-byte timestamp field of a delta format carries the delta from
    // the previous chunk: 82 - 72.
    let delta = message2.timestamp.value - message1.timestamp.value;
    let expected_csid = CONTROL_CSID | 0b01000000;
    let mut expected = vec![
        expected_csid,
        0,
        0,
        delta as u8,
        0,
        0,
        message2.data.len() as u8,
        message2.type_id,
    ];

    expected.append(&mut message2.data);
    assert_eq!(result, expected);
}

#[test]
fn second_chunk_with_same_sid_message_length_and_type_id() {
    let message1 = MessagePayload {
        timestamp: RtmpTimestamp::new(72),
        type_id: 5,
        data: vec![1, 2, 3],
        stream_id: 1,
    };

    let mut message2 = MessagePayload {
        timestamp: RtmpTimestamp::new(82),
        type_id: 5,
        data: vec![1, 2, 3],
        stream_id: 1,
    };

    let mut serializer = Serializer::new();
    serializer.serialize(&message1, false).unwrap();

    let result = serializer.serialize(&message2, false).unwrap();

    // Same length and type id: only the timestamp delta is carried.
    let delta = message2.timestamp.value - message1.timestamp.value;
    let expected_csid = CONTROL_CSID | 0b10000000;
    let mut expected = vec![expected_csid, 0, 0, delta as u8];

    expected.append(&mut message2.data);
    assert_eq!(result, expected);
}

#[test]
fn third_chunk_same_everything() {
    let message1 = MessagePayload {
        timestamp: RtmpTimestamp::new(72),
        type_id: 5,
        data: vec![1, 2, 3],
        stream_id: 1,
    };

    let message2 = MessagePayload {
        timestamp: RtmpTimestamp::new(82),
        type_id: 5,
        data: vec![1, 2, 3],
        stream_id: 1,
    };

    let mut message3 = MessagePayload {
        timestamp: RtmpTimestamp::new(92),
        type_id: 5,
        data: vec![1, 2, 3],
        stream_id: 1,
    };

    let mut serializer = Serializer::new();
    serializer.serialize(&message1, false).unwrap();
    serializer.serialize(&message2, false).unwrap();

    let result = serializer.serialize(&message3, false).unwrap();

    let expected_csid = CONTROL_CSID | 0b11000000;
    let mut expected = vec![expected_csid];
    expected.append(&mut message3.data);

    assert_eq!(result, expected);
}

#[test]
fn can_force_uncompressed_serialization() {
    let message1 = MessagePayload {
        timestamp: RtmpTimestamp::new(72),
        type_id: 5,
        data: vec![1, 2, 3],
        stream_id: 1,
    };

    let mut message2 = MessagePayload {
        timestamp: RtmpTimestamp::new(82),
        type_id: 5,
        data: vec![1, 2, 3],
        stream_id: 1,
    };

    let mut serializer = Serializer::new();
    serializer.serialize(&message1, false).unwrap();

    let result = serializer.serialize(&message2, true).unwrap();

    let mut expected = vec![
        CONTROL_CSID,
        0,
        0,
        message2.timestamp.value as u8,
        0,
        0,
        message2.data.len() as u8,
        message2.type_id,
        message2.stream_id as u8,
        0,
        0,
        0,
    ];

    expected.append(&mut message2.data);
    assert_eq!(result, expected);
}

#[test]
fn messages_larger_than_max_chunk_size_are_split() {
    let message = MessagePayload {
        timestamp: RtmpTimestamp::new(72),
        type_id: 5,
        data: vec![1, 2, 3],
        stream_id: 1,
    };

    let mut serializer = Serializer::new();
    serializer.set_max_chunk_size(2);

    let result = serializer.serialize(&message, false).unwrap();

    let expected_csid1 = CONTROL_CSID;
    let expected_csid2 = CONTROL_CSID | 0b11000000;
    let expected = vec![
        expected_csid1,
        0,
        0,
        message.timestamp.value as u8,
        0,
        0,
        message.data.len() as u8,
        message.type_id,
        message.stream_id as u8,
        0,
        0,
        0,
        1,
        2,
        expected_csid2,
        3,
    ];

    assert_eq!(result, expected);
}

#[test]
fn set_chunk_size_message_serializes_to_control_chunk() {
    // A SetChunkSize of 128 sent at timestamp 5 on message stream 5.
    let message = MessagePayload {
        timestamp: RtmpTimestamp::new(5),
        type_id: 1,
        data: vec![0, 0, 0, 128],
        stream_id: 5,
    };

    let mut serializer = Serializer::new();
    let result = serializer.serialize(&message, false).unwrap();

    let expected = vec![2u8, 0, 0, 5, 0, 0, 4, 1, 5, 0, 0, 0, 0, 0, 0, 128];

    assert_eq!(result, expected);
}

#[test]
fn oversized_message_is_rejected() {
    let message = MessagePayload {
        timestamp: RtmpTimestamp::new(0),
        type_id: 5,
        data: vec![0; 16777216],
        stream_id: 1,
    };

    let mut serializer = Serializer::new();
    let result = serializer.serialize(&message, false);

    assert_eq!(result, Err(SerializationError::MessageTooLong));
}
