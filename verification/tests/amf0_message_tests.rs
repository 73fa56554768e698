use rtmp_codec::amf0;
use rtmp_codec::amf0::{Amf0Object, Amf0Property, Amf0Value};
use rtmp_codec::messages::audio_data::AudioDataMessage;
use rtmp_codec::rtmp_message::RtmpMessage;

fn command_object() -> Amf0Object {
    Amf0Object {
        properties: vec![
            Amf0Property {
                name: "prop1".to_string(),
                value: Amf0Value::Utf8String("abc".to_string()),
            },
            Amf0Property {
                name: "prop2".to_string(),
                value: Amf0Value::Null,
            },
        ],
    }
}

#[test]
fn amf0_command_can_serialize_message() {
    let message = RtmpMessage::Amf0Command {
        command_name: "test".to_string(),
        transaction_id: (23.0f64).to_bits(),
        command_object: Amf0Value::Object(command_object()),
        additional_arguments: vec![
            Amf0Value::Boolean(true),
            Amf0Value::Number((52.0f64).to_bits()),
        ],
    };

    let raw_message = message.serialize().unwrap();
    let result = amf0::deserialize(&raw_message.data).unwrap();

    let expected = vec![
        Amf0Value::Utf8String("test".to_string()),
        Amf0Value::Number((23.0f64).to_bits()),
        Amf0Value::Object(command_object()),
        Amf0Value::Boolean(true),
        Amf0Value::Number((52.0f64).to_bits()),
    ];

    assert_eq!(expected, result);
    assert_eq!(20, raw_message.type_id);
}

#[test]
fn amf0_command_can_deserialize_message() {
    let values = vec![
        Amf0Value::Utf8String("test".to_string()),
        Amf0Value::Number((23.0f64).to_bits()),
        Amf0Value::Object(command_object()),
        Amf0Value::Boolean(true),
        Amf0Value::Number((52.0f64).to_bits()),
    ];

    let bytes = amf0::serialize(&values).unwrap();

    let expected = RtmpMessage::Amf0Command {
        command_name: "test".to_string(),
        transaction_id: (23.0f64).to_bits(),
        command_object: Amf0Value::Object(command_object()),
        additional_arguments: vec![
            Amf0Value::Boolean(true),
            Amf0Value::Number((52.0f64).to_bits()),
        ],
    };

    let result = RtmpMessage::deserialize(bytes, 20).unwrap();

    assert_eq!(expected, result);
}

#[test]
fn amf0_command_with_too_few_values_is_rejected() {
    let values = vec![Amf0Value::Utf8String("test".to_string())];
    let bytes = amf0::serialize(&values).unwrap();

    let result = RtmpMessage::deserialize(bytes, 20);

    assert!(result.is_err());
}

#[test]
fn amf0_data_can_serialize_message() {
    let message = RtmpMessage::Amf0Data {
        values: vec![Amf0Value::Boolean(true), Amf0Value::Number((52.0f64).to_bits())],
    };

    let raw_message = message.serialize().unwrap();

    let result = amf0::deserialize(&raw_message.data).unwrap();
    let expected = vec![Amf0Value::Boolean(true), Amf0Value::Number((52.0f64).to_bits())];

    assert_eq!(expected, result);
    assert_eq!(18, raw_message.type_id);
}

#[test]
fn amf0_data_can_deserialize_message() {
    let values = vec![Amf0Value::Boolean(true), Amf0Value::Number((52.0f64).to_bits())];
    let bytes = amf0::serialize(&values).unwrap();

    let result = RtmpMessage::deserialize(bytes, 18).unwrap();

    let expected = RtmpMessage::Amf0Data {
        values: vec![Amf0Value::Boolean(true), Amf0Value::Number((52.0f64).to_bits())],
    };

    assert_eq!(expected, result);
}

#[test]
fn audio_data_can_serialize_message() {
    let message = AudioDataMessage { data: vec![1, 2, 3, 4] };
    let expected = vec![1, 2, 3, 4];
    let result = message.serialize().unwrap();

    assert_eq!(result, expected);
}

#[test]
fn audio_data_can_deserialize_message() {
    let data = vec![1, 2, 3, 4];
    let expected = AudioDataMessage { data: vec![1, 2, 3, 4] };
    let result = AudioDataMessage::deserialize(data).unwrap();

    assert_eq!(result, expected);
}

#[test]
fn can_get_type_id() {
    let result = AudioDataMessage::get_type_id();
    assert_eq!(result, 8);
}

#[test]
fn audio_data_message_round_trips_through_type_dispatch() {
    let message = RtmpMessage::AudioData { data: vec![9, 8, 7] };
    let raw = message.serialize().unwrap();

    assert_eq!(raw.type_id, 8);
    assert_eq!(
        RtmpMessage::deserialize(raw.data, 8).unwrap(),
        RtmpMessage::AudioData { data: vec![9, 8, 7] }
    );
}
