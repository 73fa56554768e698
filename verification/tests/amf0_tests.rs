use rtmp_codec::amf0::{
    deserialize, serialize, Amf0DeserializationError, Amf0Object, Amf0Property,
    Amf0SerializationError, Amf0Value,
};

#[test]
fn can_serialize_number() {
    let number: f64 = 332.0;

    let input = vec![Amf0Value::Number(number.to_bits())];
    let result = serialize(&input).unwrap();

    let mut expected = vec![0u8];
    expected.extend_from_slice(&number.to_be_bytes());

    assert_eq!(result, expected);
}

#[test]
fn can_serialize_true_boolean() {
    let input = vec![Amf0Value::Boolean(true)];
    let result = serialize(&input).unwrap();

    let expected = vec![1u8, 1];

    assert_eq!(result, expected);
}

#[test]
fn can_serialize_false_boolean() {
    let input = vec![Amf0Value::Boolean(false)];
    let result = serialize(&input).unwrap();

    let expected = vec![1u8, 0];

    assert_eq!(result, expected);
}

#[test]
fn can_serialize_string() {
    let value = "test";

    let input = vec![Amf0Value::Utf8String(value.to_string())];
    let result = serialize(&input).unwrap();

    let mut expected = vec![2u8];
    expected.extend_from_slice(&(value.len() as u16).to_be_bytes());
    expected.extend_from_slice(value.as_bytes());

    assert_eq!(result, expected);
}

#[test]
fn can_serialize_null() {
    let input = vec![Amf0Value::Null];
    let result = serialize(&input).unwrap();

    let expected = vec![5u8];

    assert_eq!(result, expected);
}

#[test]
fn can_serialize_object() {
    const NUMBER: f64 = 332.0;

    let properties = vec![Amf0Property {
        name: "test".to_string(),
        value: Amf0Value::Number(NUMBER.to_bits()),
    }];

    let object = Amf0Object { properties };
    let input = vec![Amf0Value::Object(object)];
    let result = serialize(&input).unwrap();

    let mut expected = vec![3u8];
    expected.extend_from_slice(&4u16.to_be_bytes());
    expected.extend_from_slice("test".as_bytes());
    expected.push(0);
    expected.extend_from_slice(&NUMBER.to_be_bytes());
    expected.extend_from_slice(&0u16.to_be_bytes());
    expected.push(9);

    assert_eq!(result, expected);
}

#[test]
fn can_round_trip_mixed_values() {
    let object = Amf0Object {
        properties: vec![
            Amf0Property {
                name: "prop1".to_string(),
                value: Amf0Value::Utf8String("abc".to_string()),
            },
            Amf0Property {
                name: "prop2".to_string(),
                value: Amf0Value::Null,
            },
        ],
    };
    let values = vec![
        Amf0Value::Utf8String("test".to_string()),
        Amf0Value::Number((23.0f64).to_bits()),
        Amf0Value::Object(object),
        Amf0Value::Boolean(true),
        Amf0Value::Number((52.0f64).to_bits()),
    ];

    let bytes = serialize(&values).unwrap();
    let decoded = deserialize(&bytes).unwrap();

    assert_eq!(decoded, values);
}

#[test]
fn deserialize_rejects_unknown_marker() {
    let bytes = vec![17u8, 0, 0];
    let result = deserialize(&bytes);

    assert_eq!(result, Err(Amf0DeserializationError::UnknownMarker(17)));
}

#[test]
fn deserialize_rejects_truncated_number() {
    let bytes = vec![0u8, 1, 2, 3];
    let result = deserialize(&bytes);

    assert_eq!(result, Err(Amf0DeserializationError::UnexpectedEof));
}

#[test]
fn deserialize_rejects_invalid_utf8_in_string() {
    let bytes = vec![2u8, 0, 2, 0xC3, 0x28];
    let result = deserialize(&bytes);

    assert_eq!(result, Err(Amf0DeserializationError::InvalidUtf8));
}

#[test]
fn deserialize_rejects_empty_property_name_without_end_marker() {
    // An object whose first property name is empty but is not followed by
    // the object-end marker.
    let bytes = vec![3u8, 0, 0, 5];
    let result = deserialize(&bytes);

    assert_eq!(
        result,
        Err(Amf0DeserializationError::UnexpectedEmptyObjectPropertyName)
    );
}

#[test]
fn serialize_rejects_oversized_string() {
    let long = "x".repeat(65536);
    let input = vec![Amf0Value::Utf8String(long)];
    let result = serialize(&input);

    assert_eq!(result, Err(Amf0SerializationError::StringTooLong));
}

#[test]
fn decoded_string_is_not_the_raw_input() {
    // The two-byte UTF-8 sequence for a cent sign decodes to one character.
    let bytes = vec![2u8, 0, 2, 0xC2, 0xA2];
    let decoded = deserialize(&bytes).unwrap();

    assert_eq!(decoded, vec![Amf0Value::Utf8String("\u{00A2}".to_string())]);
}

#[test]
fn empty_input_decodes_to_no_values() {
    let result = deserialize(&Vec::new()).unwrap();

    assert_eq!(result, Vec::new());
}

#[test]
fn duplicate_object_keys_round_trip_in_order() {
    let object = Amf0Object {
        properties: vec![
            Amf0Property { name: "k".to_string(), value: Amf0Value::Boolean(false) },
            Amf0Property { name: "k".to_string(), value: Amf0Value::Boolean(true) },
        ],
    };
    let values = vec![Amf0Value::Object(object)];

    let bytes = serialize(&values).unwrap();
    let decoded = deserialize(&bytes).unwrap();

    assert_eq!(decoded, values);
}
