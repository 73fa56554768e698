use rtmp_codec::deserialization::Deserializer;
use rtmp_codec::message_payload::MessagePayload;
use rtmp_codec::serialization::Serializer;
use rtmp_codec::timestamp::RtmpTimestamp;

#[test]
fn serialized_message_deserializes_back_to_itself() {
    let payload = MessagePayload {
        timestamp: RtmpTimestamp::new(25),
        type_id: 3,
        stream_id: 5,
        data: vec![1, 2, 3, 4, 5, 6, 7],
    };

    let mut serializer = Serializer::new();
    let mut deserializer = Deserializer::new();
    let bytes = serializer.serialize(&payload, true).unwrap();
    let result = deserializer.process_bytes(&bytes).unwrap();

    assert_eq!(result, vec![payload]);
}

#[test]
fn split_message_reassembles_across_matching_chunk_sizes() {
    let payload = MessagePayload {
        timestamp: RtmpTimestamp::new(25),
        type_id: 3,
        stream_id: 5,
        data: (0..=255).collect(),
    };

    let mut serializer = Serializer::new();
    serializer.set_max_chunk_size(100);
    let mut deserializer = Deserializer::new();
    deserializer.set_max_chunk_size(100);

    let bytes = serializer.serialize(&payload, true).unwrap();
    let result = deserializer.process_bytes(&bytes).unwrap();

    assert_eq!(result, vec![payload]);
}

#[test]
fn feeding_in_pieces_equals_feeding_at_once() {
    let payload = MessagePayload {
        timestamp: RtmpTimestamp::new(25),
        type_id: 3,
        stream_id: 5,
        data: vec![10, 20, 30, 40],
    };

    let mut serializer = Serializer::new();
    let bytes = serializer.serialize(&payload, true).unwrap();

    let mut at_once = Deserializer::new();
    let whole = at_once.process_bytes(&bytes).unwrap();

    let mut piecewise = Deserializer::new();
    let mut collected = Vec::new();
    for byte in &bytes {
        collected.extend(piecewise.process_bytes(&vec![*byte]).unwrap());
    }

    assert_eq!(collected, whole);
}

#[test]
fn steady_stream_compresses_headers_monotonically() {
    // Messages sharing stream id, type id and length, with rising
    // timestamps: one Full header, then ever shorter ones, never a Full
    // header again.
    let mut serializer = Serializer::new();

    let mut format_bits = Vec::new();
    for i in 0..4u32 {
        let payload = MessagePayload {
            timestamp: RtmpTimestamp::new(100 + 10 * i),
            type_id: 9,
            stream_id: 1,
            data: vec![1, 2, 3],
        };
        let bytes = serializer.serialize(&payload, false).unwrap();
        format_bits.push(bytes[0] >> 6);
    }

    // First Full (0), then a delta (2: only the timestamp changed), then
    // Empty (3) once the delta repeats.
    assert_eq!(format_bits, vec![0, 2, 3, 3]);
}

#[test]
fn extended_timestamp_round_trips() {
    // A timestamp past the 3-byte field's capacity travels in the extended
    // field and comes back intact.
    let payload = MessagePayload {
        timestamp: RtmpTimestamp::new(16777216),
        type_id: 3,
        stream_id: 5,
        data: vec![1, 2, 3],
    };

    let mut serializer = Serializer::new();
    let bytes = serializer.serialize(&payload, true).unwrap();

    // Basic header, saturated 3-byte field, length, type id, stream id,
    // then the 4-byte extended timestamp.
    assert_eq!(&bytes[1..4], &[255, 255, 255]);
    assert_eq!(&bytes[12..16], &16777216u32.to_be_bytes());

    let mut deserializer = Deserializer::new();
    let result = deserializer.process_bytes(&bytes).unwrap();

    assert_eq!(result, vec![payload]);
}
