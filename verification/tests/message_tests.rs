use rtmp_codec::message_payload::MessagePayload;
use rtmp_codec::rtmp_message::{PeerBandwidthLimitType, RawRtmpMessage, RtmpMessage};
use rtmp_codec::rtmp_message_details::RtmpMessageDetails;
use rtmp_codec::timestamp::RtmpTimestamp;

#[test]
fn abort_can_serialize_message() {
    let id = 523u32;
    let expected = id.to_be_bytes().to_vec();

    let message = RtmpMessage::Abort { stream_id: id };
    let raw_message = message.serialize().unwrap();

    assert_eq!(raw_message.data, expected);
    assert_eq!(raw_message.type_id, 2);
}

#[test]
fn abort_can_deserialize_message() {
    let id = 532u32;
    let expected = RtmpMessage::Abort { stream_id: id };

    let result = RtmpMessage::deserialize(id.to_be_bytes().to_vec(), 2).unwrap();
    assert_eq!(result, expected);
}

#[test]
fn acknowledgement_can_serialize_message() {
    let number = 523u32;
    let message = RtmpMessage::Acknowledgement { sequence_number: number };

    let result = message.serialize().unwrap();

    let expected = RawRtmpMessage { type_id: 3, data: number.to_be_bytes().to_vec() };

    assert_eq!(expected, result);
}

#[test]
fn acknowledgement_can_deserialize_message() {
    let number = 532u32;

    let result = RtmpMessage::deserialize(number.to_be_bytes().to_vec(), 3).unwrap();

    let expected = RtmpMessage::Acknowledgement { sequence_number: number };
    assert_eq!(expected, result);
}

#[test]
fn set_chunk_size_can_serialize_message() {
    let size = 523u32;
    let message = RtmpMessage::SetChunkSize { size };

    let expected = size.to_be_bytes().to_vec();

    let raw_message = message.serialize().unwrap();

    assert_eq!(raw_message.data, expected);
    assert_eq!(raw_message.type_id, 1);
}

#[test]
fn set_chunk_size_can_deserialize_message() {
    let size = 532u32;

    let result = RtmpMessage::deserialize(size.to_be_bytes().to_vec(), 1).unwrap();
    let expected = RtmpMessage::SetChunkSize { size };
    assert_eq!(result, expected);
}

#[test]
fn set_chunk_size_rejects_oversized_size() {
    let message = RtmpMessage::SetChunkSize { size: 0x80000000 };

    let result = message.serialize();

    assert!(result.is_err());
}

#[test]
fn can_serialize_message_with_soft_limit_type() {
    let size = 523u32;
    let message = RtmpMessage::SetPeerBandwidth { size, limit_type: PeerBandwidthLimitType::Soft };

    let mut expected = size.to_be_bytes().to_vec();
    expected.push(1);

    let raw_message = message.serialize().unwrap();
    assert_eq!(raw_message.data, expected);
    assert_eq!(raw_message.type_id, 6);
}

#[test]
fn can_serialize_message_with_hard_limit_type() {
    let size = 523u32;
    let message = RtmpMessage::SetPeerBandwidth { size, limit_type: PeerBandwidthLimitType::Hard };

    let mut expected = size.to_be_bytes().to_vec();
    expected.push(0);

    let raw_message = message.serialize().unwrap();
    assert_eq!(raw_message.data, expected);
    assert_eq!(raw_message.type_id, 6);
}

#[test]
fn can_serialize_message_with_dynamic_limit_type() {
    let size = 523u32;
    let message =
        RtmpMessage::SetPeerBandwidth { size, limit_type: PeerBandwidthLimitType::Dynamic };

    let mut expected = size.to_be_bytes().to_vec();
    expected.push(2);

    let raw_message = message.serialize().unwrap();
    assert_eq!(raw_message.data, expected);
    assert_eq!(raw_message.type_id, 6);
}

#[test]
fn can_deserialize_message_with_hard_limit_type() {
    let size = 523u32;
    let expected =
        RtmpMessage::SetPeerBandwidth { size, limit_type: PeerBandwidthLimitType::Hard };

    let mut data = size.to_be_bytes().to_vec();
    data.push(0);

    let result = RtmpMessage::deserialize(data, 6).unwrap();
    assert_eq!(result, expected);
}

#[test]
fn can_deserialize_message_with_soft_limit_type() {
    let size = 523u32;
    let expected =
        RtmpMessage::SetPeerBandwidth { size, limit_type: PeerBandwidthLimitType::Soft };

    let mut data = size.to_be_bytes().to_vec();
    data.push(1);

    let result = RtmpMessage::deserialize(data, 6).unwrap();
    assert_eq!(result, expected);
}

#[test]
fn can_deserialize_message_with_dynamic_limit_type() {
    let size = 523u32;
    let expected =
        RtmpMessage::SetPeerBandwidth { size, limit_type: PeerBandwidthLimitType::Dynamic };

    let mut data = size.to_be_bytes().to_vec();
    data.push(2);

    let result = RtmpMessage::deserialize(data, 6).unwrap();
    assert_eq!(result, expected);
}

#[test]
fn video_data_can_serialize_message() {
    let message = RtmpMessage::VideoData { data: vec![1, 2, 3, 4] };
    let expected = vec![1, 2, 3, 4];

    let raw_message = message.serialize().unwrap();

    assert_eq!(raw_message.data, expected);
    assert_eq!(raw_message.type_id, 9);
}

#[test]
fn video_data_can_deserialize_message() {
    let data = vec![1, 2, 3, 4];
    let expected = RtmpMessage::VideoData { data: vec![1, 2, 3, 4] };

    let result = RtmpMessage::deserialize(data, 9).unwrap();
    assert_eq!(result, expected);
}

#[test]
fn window_acknowledgement_size_can_serialize_message() {
    let size = 523u32;
    let message = RtmpMessage::WindowAcknowledgement { size };

    let expected = size.to_be_bytes().to_vec();

    let raw_message = message.serialize().unwrap();
    assert_eq!(raw_message.data, expected);
    assert_eq!(raw_message.type_id, 5);
}

#[test]
fn window_acknowledgement_size_can_deserialize_message() {
    let size = 532u32;
    let expected = RtmpMessage::WindowAcknowledgement { size };

    let result = RtmpMessage::deserialize(size.to_be_bytes().to_vec(), 5).unwrap();
    assert_eq!(result, expected);
}

#[test]
fn can_serialize_unknown_message() {
    let message = RtmpMessage::Unknown { type_id: 29, data: vec![1, 2, 3, 4] };
    let expected = RawRtmpMessage { type_id: 29, data: vec![1, 2, 3, 4] };

    let result = message.serialize().unwrap();

    assert_eq!(expected, result);
}

#[test]
fn can_deserialize_unknown_message() {
    let id = 255;
    let expected = RtmpMessage::Unknown { type_id: id, data: vec![1, 2, 3, 4] };
    let result = RtmpMessage::deserialize(vec![1, 2, 3, 4], id).unwrap();
    assert_eq!(expected, result);
}

#[test]
fn can_get_details_from_payload() {
    let stream_id = 12;

    let payload = MessagePayload {
        timestamp: RtmpTimestamp::new(5),
        stream_id,
        type_id: 255,
        data: vec![1, 2, 3, 4, 5],
    };

    let expected = RtmpMessageDetails {
        rtmp_timestamp: RtmpTimestamp::new(5),
        stream_id,
        message: RtmpMessage::Unknown { type_id: 255, data: vec![1, 2, 3, 4, 5] },
    };

    let result = RtmpMessageDetails::from_payload(payload).unwrap();
    assert_eq!(result, expected);
}

#[test]
fn can_get_payload_from_details() {
    let stream_id = 12;

    let details = RtmpMessageDetails {
        rtmp_timestamp: RtmpTimestamp::new(5),
        stream_id,
        message: RtmpMessage::Unknown { type_id: 255, data: vec![1, 2, 3, 4, 5] },
    };

    let expected = MessagePayload {
        timestamp: RtmpTimestamp::new(5),
        stream_id,
        type_id: 255,
        data: vec![1, 2, 3, 4, 5],
    };

    let result = details.to_payload().unwrap();
    assert_eq!(result, expected);
}

#[test]
fn too_short_abort_is_rejected() {
    let result = RtmpMessage::deserialize(vec![0, 0], 2);

    assert!(result.is_err());
}
