use rtmp_codec::rtmp_message::{RtmpMessage, UserControlEventType};
use rtmp_codec::timestamp::RtmpTimestamp;

fn stream_event_bytes(code: u16, stream_id: u32) -> Vec<u8> {
    let mut bytes = code.to_be_bytes().to_vec();
    bytes.extend_from_slice(&stream_id.to_be_bytes());
    bytes
}

#[test]
fn can_serializel_stream_begin_message() {
    let stream_id = 555;
    let message = RtmpMessage::UserControl {
        event_type: UserControlEventType::StreamBegin,
        stream_id: Some(stream_id),
        buffer_length: None,
        timestamp: None,
    };

    let raw_message = message.serialize().unwrap();

    assert_eq!(raw_message.data, stream_event_bytes(0, stream_id));
    assert_eq!(raw_message.type_id, 4);
}

#[test]
fn can_serializel_stream_eof_message() {
    let stream_id = 555;
    let message = RtmpMessage::UserControl {
        event_type: UserControlEventType::StreamEof,
        stream_id: Some(stream_id),
        buffer_length: None,
        timestamp: None,
    };

    let raw_message = message.serialize().unwrap();

    assert_eq!(raw_message.data, stream_event_bytes(1, stream_id));
    assert_eq!(raw_message.type_id, 4);
}

#[test]
fn can_serializel_stream_dry_message() {
    let stream_id = 555;
    let message = RtmpMessage::UserControl {
        event_type: UserControlEventType::StreamDry,
        stream_id: Some(stream_id),
        buffer_length: None,
        timestamp: None,
    };

    let raw_message = message.serialize().unwrap();

    assert_eq!(raw_message.data, stream_event_bytes(2, stream_id));
    assert_eq!(raw_message.type_id, 4);
}

#[test]
fn can_serializel_set_buffer_length_message() {
    let stream_id = 555;
    let buffer_length = 666u32;
    let message = RtmpMessage::UserControl {
        event_type: UserControlEventType::SetBufferLength,
        stream_id: Some(stream_id),
        buffer_length: Some(buffer_length),
        timestamp: None,
    };

    let raw_message = message.serialize().unwrap();

    let mut expected = stream_event_bytes(3, stream_id);
    expected.extend_from_slice(&buffer_length.to_be_bytes());

    assert_eq!(raw_message.data, expected);
    assert_eq!(raw_message.type_id, 4);
}

#[test]
fn can_serializel_stream_is_recorded_message() {
    let stream_id = 555;
    let message = RtmpMessage::UserControl {
        event_type: UserControlEventType::StreamIsRecorded,
        stream_id: Some(stream_id),
        buffer_length: None,
        timestamp: None,
    };

    let raw_message = message.serialize().unwrap();

    assert_eq!(raw_message.data, stream_event_bytes(4, stream_id));
    assert_eq!(raw_message.type_id, 4);
}

#[test]
fn can_serializel_ping_request_message() {
    let timestamp = 555;
    let message = RtmpMessage::UserControl {
        event_type: UserControlEventType::PingRequest,
        stream_id: None,
        buffer_length: None,
        timestamp: Some(RtmpTimestamp::new(timestamp)),
    };

    let raw_message = message.serialize().unwrap();

    assert_eq!(raw_message.data, stream_event_bytes(6, timestamp));
    assert_eq!(raw_message.type_id, 4);
}

#[test]
fn can_serializel_ping_response_message() {
    let timestamp = 555;
    let message = RtmpMessage::UserControl {
        event_type: UserControlEventType::PingResponse,
        stream_id: None,
        buffer_length: None,
        timestamp: Some(RtmpTimestamp::new(timestamp)),
    };

    let raw_message = message.serialize().unwrap();

    assert_eq!(raw_message.data, stream_event_bytes(7, timestamp));
    assert_eq!(raw_message.type_id, 4);
}

#[test]
fn can_deserializel_stream_begin_message() {
    let stream_id = 555;
    let expected = RtmpMessage::UserControl {
        event_type: UserControlEventType::StreamBegin,
        stream_id: Some(stream_id),
        buffer_length: None,
        timestamp: None,
    };

    let result = RtmpMessage::deserialize(stream_event_bytes(0, stream_id), 4).unwrap();
    assert_eq!(result, expected);
}

#[test]
fn can_deserializel_stream_eof_message() {
    let stream_id = 555;
    let expected = RtmpMessage::UserControl {
        event_type: UserControlEventType::StreamEof,
        stream_id: Some(stream_id),
        buffer_length: None,
        timestamp: None,
    };

    let result = RtmpMessage::deserialize(stream_event_bytes(1, stream_id), 4).unwrap();
    assert_eq!(result, expected);
}

#[test]
fn can_deserializel_stream_dry_message() {
    let stream_id = 555;
    let expected = RtmpMessage::UserControl {
        event_type: UserControlEventType::StreamDry,
        stream_id: Some(stream_id),
        buffer_length: None,
        timestamp: None,
    };

    let result = RtmpMessage::deserialize(stream_event_bytes(2, stream_id), 4).unwrap();
    assert_eq!(result, expected);
}

#[test]
fn can_deserializel_set_buffer_length_message() {
    let stream_id = 555;
    let buffer_length = 666u32;
    let expected = RtmpMessage::UserControl {
        event_type: UserControlEventType::SetBufferLength,
        stream_id: Some(stream_id),
        buffer_length: Some(buffer_length),
        timestamp: None,
    };

    let mut data = stream_event_bytes(3, stream_id);
    data.extend_from_slice(&buffer_length.to_be_bytes());

    let result = RtmpMessage::deserialize(data, 4).unwrap();
    assert_eq!(result, expected);
}

#[test]
fn can_deserializel_stream_is_recorded_message() {
    let stream_id = 555;
    let expected = RtmpMessage::UserControl {
        event_type: UserControlEventType::StreamIsRecorded,
        stream_id: Some(stream_id),
        buffer_length: None,
        timestamp: None,
    };

    let result = RtmpMessage::deserialize(stream_event_bytes(4, stream_id), 4).unwrap();
    assert_eq!(result, expected);
}

#[test]
fn can_deserializel_ping_request_message() {
    let timestamp = 555;
    let expected = RtmpMessage::UserControl {
        event_type: UserControlEventType::PingRequest,
        stream_id: None,
        buffer_length: None,
        timestamp: Some(RtmpTimestamp::new(timestamp)),
    };

    let result = RtmpMessage::deserialize(stream_event_bytes(6, timestamp), 4).unwrap();
    assert_eq!(result, expected);
}

#[test]
fn can_deserializel_ping_response_message() {
    let timestamp = 555;
    let expected = RtmpMessage::UserControl {
        event_type: UserControlEventType::PingResponse,
        stream_id: None,
        buffer_length: None,
        timestamp: Some(RtmpTimestamp::new(timestamp)),
    };

    let result = RtmpMessage::deserialize(stream_event_bytes(7, timestamp), 4).unwrap();
    assert_eq!(result, expected);
}

#[test]
fn unknown_event_code_is_rejected() {
    let result = RtmpMessage::deserialize(stream_event_bytes(5, 555), 4);

    assert!(result.is_err());
}
