use rtmp_codec::amf0::{Amf0Object, Amf0Property, Amf0Value};
use rtmp_codec::events::ProcessorEvent;
use rtmp_codec::processor::{
    ProcessorResult, RtmpProcessor, RtmpProcessorConfig, RtmpProcessorError,
};
use rtmp_codec::rtmp_message::{PeerBandwidthLimitType, RtmpMessage};
use rtmp_codec::rtmp_message_details::RtmpMessageDetails;
use rtmp_codec::timestamp::RtmpTimestamp;

fn get_default_config() -> RtmpProcessorConfig {
    RtmpProcessorConfig {
        version: "version".to_string(),
        peer_bandwidth: 50000,
        window_ack_size: 50000,
    }
}

fn create_set_chunk_size_message(size: u32) -> RtmpMessageDetails {
    RtmpMessageDetails {
        rtmp_timestamp: RtmpTimestamp::new(0),
        stream_id: 0,
        message: RtmpMessage::SetChunkSize { size },
    }
}

fn create_window_ack_message(size: u32) -> RtmpMessageDetails {
    RtmpMessageDetails {
        rtmp_timestamp: RtmpTimestamp::new(0),
        stream_id: 0,
        message: RtmpMessage::WindowAcknowledgement { size },
    }
}

fn create_connect_command(app: String) -> RtmpMessageDetails {
    let properties = vec![
        Amf0Property { name: "app".to_string(), value: Amf0Value::Utf8String(app) },
        Amf0Property {
            name: "type".to_string(),
            value: Amf0Value::Utf8String("nonprivate".to_string()),
        },
        Amf0Property {
            name: "flashVer".to_string(),
            value: Amf0Value::Utf8String("FMLE/3.0 (compatible; FMSc/1.0)".to_string()),
        },
        Amf0Property {
            name: "swfUrl".to_string(),
            value: Amf0Value::Utf8String("rtmp://127.0.0.1/live".to_string()),
        },
        Amf0Property {
            name: "tcUrl".to_string(),
            value: Amf0Value::Utf8String("rtmp://127.0.0.1/live".to_string()),
        },
    ];

    RtmpMessageDetails {
        rtmp_timestamp: RtmpTimestamp::new(0),
        stream_id: 0,
        message: RtmpMessage::Amf0Command {
            command_name: "connect".to_string(),
            transaction_id: (1.0f64).to_bits(),
            command_object: Amf0Value::Object(Amf0Object { properties }),
            additional_arguments: vec![],
        },
    }
}

#[test]
fn self_chunk_size() {
    let mut processor = RtmpProcessor::new(get_default_config());
    let result = processor.set_chunk_size(4096);

    assert_eq!(result.len(), 2);
    assert_eq!(
        result[0],
        ProcessorResult::RaisedEvent(ProcessorEvent::SelfChunkSizeChanged { new_chunk_size: 4096 })
    );
    assert_eq!(
        result[1],
        ProcessorResult::ResponseMessage(RtmpMessageDetails {
            rtmp_timestamp: RtmpTimestamp::new(0),
            stream_id: 0,
            message: RtmpMessage::SetChunkSize { size: 4096 },
        })
    );
}

#[test]
fn peer_chunk_size() {
    let mut processor = RtmpProcessor::new(get_default_config());
    let result = processor.handle(vec![create_set_chunk_size_message(4000)]).unwrap();

    assert_eq!(result.len(), 1);
    assert_eq!(
        result[0],
        ProcessorResult::RaisedEvent(ProcessorEvent::PeerChunkSizeChanged { new_chunk_size: 4000 })
    );
}

#[test]
fn peer_window_ack_size() {
    let mut processor = RtmpProcessor::new(get_default_config());
    let result = processor.handle(vec![create_window_ack_message(5000000)]).unwrap();

    assert_eq!(result.len(), 0);
}

#[test]
fn connection_command_received_and_accepted() {
    let bandwidth_size = 60000;
    let window_ack_size = 70000;
    let mut config = get_default_config();
    config.peer_bandwidth = bandwidth_size;
    config.window_ack_size = window_ack_size;

    let mut processor = RtmpProcessor::new(config);
    let app_name = "myapp".to_string();
    let command = create_connect_command(app_name.clone());

    let initial_result = processor.handle(vec![command]).unwrap();
    assert_eq!(initial_result.len(), 3);
    assert_eq!(
        initial_result[0],
        ProcessorResult::ResponseMessage(RtmpMessageDetails {
            rtmp_timestamp: RtmpTimestamp::new(0),
            stream_id: 0,
            message: RtmpMessage::SetPeerBandwidth {
                size: bandwidth_size,
                limit_type: PeerBandwidthLimitType::Hard,
            },
        })
    );
    assert_eq!(
        initial_result[1],
        ProcessorResult::ResponseMessage(RtmpMessageDetails {
            rtmp_timestamp: RtmpTimestamp::new(0),
            stream_id: 0,
            message: RtmpMessage::WindowAcknowledgement { size: window_ack_size },
        })
    );
    let request_id = match &initial_result[2] {
        ProcessorResult::RaisedEvent(ProcessorEvent::ConnectionRequested {
            request_id,
            application_name,
        }) => {
            assert_eq!(application_name, &app_name);
            *request_id
        },
        other => panic!("unexpected third result: {:?}", other),
    };

    let command_object = Amf0Value::Object(Amf0Object {
        properties: vec![
            Amf0Property {
                name: "fmsVer".to_string(),
                value: Amf0Value::Utf8String("version".to_string()),
            },
            Amf0Property {
                name: "capabilities".to_string(),
                value: Amf0Value::Number((31.0f64).to_bits()),
            },
        ],
    });
    let arguments = vec![Amf0Value::Object(Amf0Object {
        properties: vec![
            Amf0Property {
                name: "level".to_string(),
                value: Amf0Value::Utf8String("status".to_string()),
            },
            Amf0Property {
                name: "code".to_string(),
                value: Amf0Value::Utf8String("NetConnection.Connect.Success".to_string()),
            },
            Amf0Property {
                name: "description".to_string(),
                value: Amf0Value::Utf8String("Connection succeeded".to_string()),
            },
            Amf0Property {
                name: "objectEncoding".to_string(),
                value: Amf0Value::Number((0.0f64).to_bits()),
            },
        ],
    })];

    let accept_result = processor.accept_request(request_id).unwrap();
    assert_eq!(accept_result.len(), 1);
    assert_eq!(
        accept_result[0],
        ProcessorResult::ResponseMessage(RtmpMessageDetails {
            rtmp_timestamp: RtmpTimestamp::new(0),
            stream_id: 0,
            message: RtmpMessage::Amf0Command {
                command_name: "_result".to_string(),
                transaction_id: (1.0f64).to_bits(),
                command_object,
                additional_arguments: arguments,
            },
        })
    );
}

#[test]
fn unknown_request_id_is_refused() {
    let mut processor = RtmpProcessor::new(get_default_config());

    assert_eq!(processor.accept_request(42), Err(RtmpProcessorError::UnknownRequestId));
    assert_eq!(processor.reject_request(42), Err(RtmpProcessorError::UnknownRequestId));
}

#[test]
fn rejected_request_is_forgotten() {
    let mut processor = RtmpProcessor::new(get_default_config());
    let results = processor.handle(vec![create_connect_command("myapp".to_string())]).unwrap();

    let request_id = match &results[2] {
        ProcessorResult::RaisedEvent(ProcessorEvent::ConnectionRequested { request_id, .. }) => {
            *request_id
        },
        other => panic!("unexpected third result: {:?}", other),
    };

    assert_eq!(processor.reject_request(request_id), Ok(vec![]));
    assert_eq!(processor.accept_request(request_id), Err(RtmpProcessorError::UnknownRequestId));
}

#[test]
fn unknown_command_gets_error_response_and_event() {
    let mut processor = RtmpProcessor::new(get_default_config());
    let details = RtmpMessageDetails {
        rtmp_timestamp: RtmpTimestamp::new(0),
        stream_id: 7,
        message: RtmpMessage::Amf0Command {
            command_name: "publish".to_string(),
            transaction_id: (4.0f64).to_bits(),
            command_object: Amf0Value::Null,
            additional_arguments: vec![],
        },
    };

    let results = processor.handle(vec![details]).unwrap();

    assert_eq!(results.len(), 2);
    assert_eq!(
        results[0],
        ProcessorResult::ResponseMessage(RtmpMessageDetails {
            rtmp_timestamp: RtmpTimestamp::new(0),
            stream_id: 7,
            message: RtmpMessage::Amf0Command {
                command_name: "_error".to_string(),
                transaction_id: (4.0f64).to_bits(),
                command_object: Amf0Value::Null,
                additional_arguments: vec![],
            },
        })
    );
    assert_eq!(
        results[1],
        ProcessorResult::RaisedEvent(ProcessorEvent::UnhandleableAmf0Command {
            command_name: "publish".to_string(),
        })
    );
}

fn create_audio_details() -> RtmpMessageDetails {
    RtmpMessageDetails {
        rtmp_timestamp: RtmpTimestamp::new(9),
        stream_id: 3,
        message: RtmpMessage::AudioData { data: vec![1, 2] },
    }
}

#[test]
fn unhandled_message_is_passed_back() {
    let mut processor = RtmpProcessor::new(get_default_config());

    let results = processor.handle(vec![create_audio_details()]).unwrap();

    assert_eq!(results, vec![ProcessorResult::UnhandleableMessage(create_audio_details())]);
}
