//! The typed message codec: raw payload bytes to a closed sum of known RTMP
//! messages and back, dispatching on the message type id.
//!
//! Unrecognized type ids pass through as `Unknown` messages so higher layers
//! can forward them.

use vstd::prelude::*;

use crate::amf0::{
    values_encodable, values_view, Amf0DeserializationError, Amf0SerializationError, Amf0Value,
    Amf0ValueView, spec_decode_values, spec_encode_values,
};
use crate::timestamp::RtmpTimestamp;
use crate::utils::{be_u16_of, be_u32_of, u16_be_bytes, u32_be_bytes};

verus! {

/// The largest chunk size a SetChunkSize message may carry: the field's top
/// bit must be zero.
pub const MAX_CHUNK_SIZE: u32 = 2147483647;

/// Why payload bytes failed to decode as a typed message.
#[derive(Eq, PartialEq, Structural, Debug, Copy, Clone)]
pub enum MessageDeserializationError {
    /// The payload is not laid out as its type id demands.
    InvalidMessageFormat,
    /// An AMF0 value inside the payload failed to decode.
    Amf0DeserializationError(Amf0DeserializationError),
}

/// Why a typed message failed to encode.
#[derive(Eq, PartialEq, Structural, Debug, Copy, Clone)]
pub enum MessageSerializationError {
    /// A SetChunkSize message carried a size of 2^31 or more.
    InvalidChunkSize,
    /// An AMF0 value inside the message failed to encode.
    Amf0SerializationError(Amf0SerializationError),
}

/// How a SetPeerBandwidth message asks the peer to limit its bandwidth.
#[derive(Eq, PartialEq, Structural, Debug, Copy, Clone)]
pub enum PeerBandwidthLimitType {
    Hard,
    Soft,
    Dynamic,
}

/// The events a UserControl message can carry.
#[derive(Eq, PartialEq, Structural, Debug, Copy, Clone)]
pub enum UserControlEventType {
    StreamBegin,
    StreamEof,
    StreamDry,
    SetBufferLength,
    StreamIsRecorded,
    PingRequest,
    PingResponse,
}

/// A typed RTMP message.  `Amf0Command`'s transaction id is the IEEE-754 bit
/// pattern of the AMF0 number that carries it on the wire.
#[derive(PartialEq, Debug)]
pub enum RtmpMessage {
    Unknown { type_id: u8, data: Vec<u8> },
    Abort { stream_id: u32 },
    Acknowledgement { sequence_number: u32 },
    Amf0Command {
        command_name: String,
        transaction_id: u64,
        command_object: Amf0Value,
        additional_arguments: Vec<Amf0Value>,
    },
    Amf0Data { values: Vec<Amf0Value> },
    AudioData { data: Vec<u8> },
    SetChunkSize { size: u32 },
    SetPeerBandwidth { size: u32, limit_type: PeerBandwidthLimitType },
    UserControl {
        event_type: UserControlEventType,
        stream_id: Option<u32>,
        buffer_length: Option<u32>,
        timestamp: Option<RtmpTimestamp>,
    },
    VideoData { data: Vec<u8> },
    WindowAcknowledgement { size: u32 },
}

/// A message reduced to its wire form: payload bytes and a type id.
#[derive(PartialEq, Debug)]
pub struct RawRtmpMessage {
    pub data: Vec<u8>,
    pub type_id: u8,
}

/// The mathematical content of a raw message.
#[verifier::ext_equal]
pub struct RawMessageView {
    pub data: Seq<u8>,
    pub type_id: u8,
}

impl View for RawRtmpMessage {
    type V = RawMessageView;

    open spec fn view(&self) -> RawMessageView {
        RawMessageView { data: self.data@, type_id: self.type_id }
    }
}

/// The mathematical content of a typed message.
#[verifier::ext_equal]
pub enum MessageView {
    Unknown { type_id: u8, data: Seq<u8> },
    Abort { stream_id: u32 },
    Acknowledgement { sequence_number: u32 },
    Amf0Command {
        command_name: Seq<char>,
        transaction_id: u64,
        command_object: Amf0ValueView,
        additional_arguments: Seq<Amf0ValueView>,
    },
    Amf0Data { values: Seq<Amf0ValueView> },
    AudioData { data: Seq<u8> },
    SetChunkSize { size: u32 },
    SetPeerBandwidth { size: u32, limit_type: PeerBandwidthLimitType },
    UserControl {
        event_type: UserControlEventType,
        stream_id: Option<u32>,
        buffer_length: Option<u32>,
        timestamp: Option<u32>,
    },
    VideoData { data: Seq<u8> },
    WindowAcknowledgement { size: u32 },
}

impl View for RtmpMessage {
    type V = MessageView;

    open spec fn view(&self) -> MessageView {
        match self {
            RtmpMessage::Unknown { type_id, data } => MessageView::Unknown {
                type_id: *type_id,
                data: data@,
            },
            RtmpMessage::Abort { stream_id } => MessageView::Abort { stream_id: *stream_id },
            RtmpMessage::Acknowledgement { sequence_number } => MessageView::Acknowledgement {
                sequence_number: *sequence_number,
            },
            RtmpMessage::Amf0Command {
                command_name,
                transaction_id,
                command_object,
                additional_arguments,
            } => MessageView::Amf0Command {
                command_name: command_name@,
                transaction_id: *transaction_id,
                command_object: command_object@,
                additional_arguments: values_view(additional_arguments@),
            },
            RtmpMessage::Amf0Data { values } => MessageView::Amf0Data {
                values: values_view(values@),
            },
            RtmpMessage::AudioData { data } => MessageView::AudioData { data: data@ },
            RtmpMessage::SetChunkSize { size } => MessageView::SetChunkSize { size: *size },
            RtmpMessage::SetPeerBandwidth { size, limit_type } => MessageView::SetPeerBandwidth {
                size: *size,
                limit_type: *limit_type,
            },
            RtmpMessage::UserControl { event_type, stream_id, buffer_length, timestamp } => {
                MessageView::UserControl {
                    event_type: *event_type,
                    stream_id: *stream_id,
                    buffer_length: *buffer_length,
                    timestamp: match timestamp {
                        Some(t) => Some(t.value),
                        None => None,
                    },
                }
            },
            RtmpMessage::VideoData { data } => MessageView::VideoData { data: data@ },
            RtmpMessage::WindowAcknowledgement { size } => MessageView::WindowAcknowledgement {
                size: *size,
            },
        }
    }
}

/// The wire code of a user control event.
pub open spec fn spec_event_code(event_type: UserControlEventType) -> u16 {
    match event_type {
        UserControlEventType::StreamBegin => 0,
        UserControlEventType::StreamEof => 1,
        UserControlEventType::StreamDry => 2,
        UserControlEventType::SetBufferLength => 3,
        UserControlEventType::StreamIsRecorded => 4,
        UserControlEventType::PingRequest => 6,
        UserControlEventType::PingResponse => 7,
    }
}

/// An optional field's wire value: the value, or zero when absent.
pub open spec fn spec_field_or_zero(v: Option<u32>) -> u32 {
    match v {
        Some(x) => x,
        None => 0,
    }
}

/// The body of a user control message: the event code, then the fields the
/// event carries, absent ones written as zero.
pub open spec fn spec_encode_user_control(
    event_type: UserControlEventType,
    stream_id: Option<u32>,
    buffer_length: Option<u32>,
    timestamp: Option<u32>,
) -> Seq<u8> {
    u16_be_bytes(spec_event_code(event_type)) + (match event_type {
        UserControlEventType::SetBufferLength => u32_be_bytes(spec_field_or_zero(stream_id))
            + u32_be_bytes(spec_field_or_zero(buffer_length)),
        UserControlEventType::PingRequest => u32_be_bytes(spec_field_or_zero(timestamp)),
        UserControlEventType::PingResponse => u32_be_bytes(spec_field_or_zero(timestamp)),
        _ => u32_be_bytes(spec_field_or_zero(stream_id)),
    })
}

/// What encoding a typed message gives: the payload bytes and type id, or
/// the error the message's content forces.
pub open spec fn spec_serialize_message(m: MessageView) -> Result<
    RawMessageView,
    MessageSerializationError,
> {
    match m {
        MessageView::Unknown { type_id, data } => Ok(RawMessageView { data, type_id }),
        MessageView::Abort { stream_id } => Ok(
            RawMessageView { data: u32_be_bytes(stream_id), type_id: 2 },
        ),
        MessageView::Acknowledgement { sequence_number } => Ok(
            RawMessageView { data: u32_be_bytes(sequence_number), type_id: 3 },
        ),
        MessageView::Amf0Command {
            command_name,
            transaction_id,
            command_object,
            additional_arguments,
        } => {
            let values = seq![
                Amf0ValueView::Utf8String(command_name),
                Amf0ValueView::Number(transaction_id),
                command_object,
            ] + additional_arguments;
            if values_encodable(values) {
                Ok(RawMessageView { data: spec_encode_values(values), type_id: 20 })
            } else {
                Err(
                    MessageSerializationError::Amf0SerializationError(
                        Amf0SerializationError::StringTooLong,
                    ),
                )
            }
        },
        MessageView::Amf0Data { values } => {
            if values_encodable(values) {
                Ok(RawMessageView { data: spec_encode_values(values), type_id: 18 })
            } else {
                Err(
                    MessageSerializationError::Amf0SerializationError(
                        Amf0SerializationError::StringTooLong,
                    ),
                )
            }
        },
        MessageView::AudioData { data } => Ok(RawMessageView { data, type_id: 8 }),
        MessageView::SetChunkSize { size } => {
            if size > MAX_CHUNK_SIZE {
                Err(MessageSerializationError::InvalidChunkSize)
            } else {
                Ok(RawMessageView { data: u32_be_bytes(size), type_id: 1 })
            }
        },
        MessageView::SetPeerBandwidth { size, limit_type } => {
            let limit_byte: u8 = match limit_type {
                PeerBandwidthLimitType::Hard => 0,
                PeerBandwidthLimitType::Soft => 1,
                PeerBandwidthLimitType::Dynamic => 2,
            };
            Ok(RawMessageView { data: u32_be_bytes(size) + seq![limit_byte], type_id: 6 })
        },
        MessageView::UserControl { event_type, stream_id, buffer_length, timestamp } => Ok(
            RawMessageView {
                data: spec_encode_user_control(event_type, stream_id, buffer_length, timestamp),
                type_id: 4,
            },
        ),
        MessageView::VideoData { data } => Ok(RawMessageView { data, type_id: 9 }),
        MessageView::WindowAcknowledgement { size } => Ok(
            RawMessageView { data: u32_be_bytes(size), type_id: 5 },
        ),
    }
}

/// What decoding payload bytes under a type id gives: the typed message, or
/// the error the bytes force.  Unknown type ids pass the bytes through.
pub open spec fn spec_deserialize_message(data: Seq<u8>, type_id: u8) -> Result<
    MessageView,
    MessageDeserializationError,
> {
    if type_id == 1 {
        if data.len() < 4 {
            Err(MessageDeserializationError::InvalidMessageFormat)
        } else {
            let size = be_u32_of(data.subrange(0, 4)) as u32;
            if size > MAX_CHUNK_SIZE {
                Err(MessageDeserializationError::InvalidMessageFormat)
            } else {
                Ok(MessageView::SetChunkSize { size })
            }
        }
    } else if type_id == 2 {
        if data.len() < 4 {
            Err(MessageDeserializationError::InvalidMessageFormat)
        } else {
            Ok(MessageView::Abort { stream_id: be_u32_of(data.subrange(0, 4)) as u32 })
        }
    } else if type_id == 3 {
        if data.len() < 4 {
            Err(MessageDeserializationError::InvalidMessageFormat)
        } else {
            Ok(
                MessageView::Acknowledgement {
                    sequence_number: be_u32_of(data.subrange(0, 4)) as u32,
                },
            )
        }
    } else if type_id == 4 {
        spec_deserialize_user_control(data)
    } else if type_id == 5 {
        if data.len() < 4 {
            Err(MessageDeserializationError::InvalidMessageFormat)
        } else {
            Ok(MessageView::WindowAcknowledgement { size: be_u32_of(data.subrange(0, 4)) as u32 })
        }
    } else if type_id == 6 {
        if data.len() < 5 {
            Err(MessageDeserializationError::InvalidMessageFormat)
        } else {
            let size = be_u32_of(data.subrange(0, 4)) as u32;
            if data[4] == 0 {
                Ok(MessageView::SetPeerBandwidth { size, limit_type: PeerBandwidthLimitType::Hard })
            } else if data[4] == 1 {
                Ok(MessageView::SetPeerBandwidth { size, limit_type: PeerBandwidthLimitType::Soft })
            } else if data[4] == 2 {
                Ok(
                    MessageView::SetPeerBandwidth {
                        size,
                        limit_type: PeerBandwidthLimitType::Dynamic,
                    },
                )
            } else {
                Err(MessageDeserializationError::InvalidMessageFormat)
            }
        }
    } else if type_id == 8 {
        Ok(MessageView::AudioData { data })
    } else if type_id == 9 {
        Ok(MessageView::VideoData { data })
    } else if type_id == 18 {
        match spec_decode_values(data) {
            Err(e) => Err(MessageDeserializationError::Amf0DeserializationError(e)),
            Ok(values) => Ok(MessageView::Amf0Data { values }),
        }
    } else if type_id == 20 {
        match spec_decode_values(data) {
            Err(e) => Err(MessageDeserializationError::Amf0DeserializationError(e)),
            Ok(values) => {
                if values.len() < 3 {
                    Err(MessageDeserializationError::InvalidMessageFormat)
                } else {
                    match (values[0], values[1]) {
                        (Amf0ValueView::Utf8String(name), Amf0ValueView::Number(tx)) => Ok(
                            MessageView::Amf0Command {
                                command_name: name,
                                transaction_id: tx,
                                command_object: values[2],
                                additional_arguments: values.skip(3),
                            },
                        ),
                        _ => Err(MessageDeserializationError::InvalidMessageFormat),
                    }
                }
            },
        }
    } else {
        Ok(MessageView::Unknown { type_id, data })
    }
}

/// The user control part of `spec_deserialize_message`: the 2-byte event
/// code picks the event, whose fields follow as 4-byte values.
pub open spec fn spec_deserialize_user_control(data: Seq<u8>) -> Result<
    MessageView,
    MessageDeserializationError,
> {
    if data.len() < 2 {
        Err(MessageDeserializationError::InvalidMessageFormat)
    } else {
        let code = be_u16_of(data.subrange(0, 2));
        if code == 0 || code == 1 || code == 2 || code == 4 {
            if data.len() < 6 {
                Err(MessageDeserializationError::InvalidMessageFormat)
            } else {
                Ok(
                    MessageView::UserControl {
                        event_type: if code == 0 {
                            UserControlEventType::StreamBegin
                        } else if code == 1 {
                            UserControlEventType::StreamEof
                        } else if code == 2 {
                            UserControlEventType::StreamDry
                        } else {
                            UserControlEventType::StreamIsRecorded
                        },
                        stream_id: Some(be_u32_of(data.subrange(2, 6)) as u32),
                        buffer_length: None,
                        timestamp: None,
                    },
                )
            }
        } else if code == 3 {
            if data.len() < 10 {
                Err(MessageDeserializationError::InvalidMessageFormat)
            } else {
                Ok(
                    MessageView::UserControl {
                        event_type: UserControlEventType::SetBufferLength,
                        stream_id: Some(be_u32_of(data.subrange(2, 6)) as u32),
                        buffer_length: Some(be_u32_of(data.subrange(6, 10)) as u32),
                        timestamp: None,
                    },
                )
            }
        } else if code == 6 || code == 7 {
            if data.len() < 6 {
                Err(MessageDeserializationError::InvalidMessageFormat)
            } else {
                Ok(
                    MessageView::UserControl {
                        event_type: if code == 6 {
                            UserControlEventType::PingRequest
                        } else {
                            UserControlEventType::PingResponse
                        },
                        stream_id: None,
                        buffer_length: None,
                        timestamp: Some(be_u32_of(data.subrange(2, 6)) as u32),
                    },
                )
            }
        } else {
            Err(MessageDeserializationError::InvalidMessageFormat)
        }
    }
}

impl RtmpMessage {
    /// Encodes this message into its payload bytes and type id, exactly as
    /// `spec_serialize_message` says; fails exactly on an oversized
    /// SetChunkSize or an AMF0 string too long for its length prefix.
    pub fn serialize(self) -> (r: Result<RawRtmpMessage, MessageSerializationError>)
        ensures
            match spec_serialize_message(self@) {
                Ok(raw) => r matches Ok(v) && v@ == raw,
                Err(e) => r == Err::<RawRtmpMessage, MessageSerializationError>(e),
            },
    {
        match self {
            RtmpMessage::Unknown { type_id, data } => Ok(RawRtmpMessage { type_id, data }),
            RtmpMessage::Abort { stream_id } => crate::messages::abort::serialize(stream_id),
            RtmpMessage::Acknowledgement { sequence_number } => {
                crate::messages::acknowledgement::serialize(sequence_number)
            },
            RtmpMessage::Amf0Command {
                command_name,
                transaction_id,
                command_object,
                additional_arguments,
            } => {
                crate::messages::amf0_command::serialize(
                    command_name,
                    transaction_id,
                    command_object,
                    additional_arguments,
                )
            },
            RtmpMessage::Amf0Data { values } => crate::messages::amf0_data::serialize(values),
            RtmpMessage::AudioData { data } => crate::messages::audio_data::serialize(data),
            RtmpMessage::SetChunkSize { size } => crate::messages::set_chunk_size::serialize(size),
            RtmpMessage::SetPeerBandwidth { size, limit_type } => {
                crate::messages::set_peer_bandwidth::serialize(limit_type, size)
            },
            RtmpMessage::UserControl { event_type, stream_id, buffer_length, timestamp } => {
                crate::messages::user_control::serialize(
                    event_type,
                    stream_id,
                    buffer_length,
                    timestamp,
                )
            },
            RtmpMessage::VideoData { data } => crate::messages::video_data::serialize(data),
            RtmpMessage::WindowAcknowledgement { size } => {
                crate::messages::window_acknowledgement_size::serialize(size)
            },
        }
    }

    /// Decodes payload bytes under a type id into a typed message, exactly
    /// as `spec_deserialize_message` says; bytes of an unknown type id pass
    /// through unchanged.
    pub fn deserialize(bytes: Vec<u8>, type_id: u8) -> (r: Result<
        RtmpMessage,
        MessageDeserializationError,
    >)
        ensures
            match spec_deserialize_message(bytes@, type_id) {
                Ok(m) => r matches Ok(v) && v@ == m,
                Err(e) => r == Err::<RtmpMessage, MessageDeserializationError>(e),
            },
    {
        if type_id == 1 {
            crate::messages::set_chunk_size::deserialize(bytes)
        } else if type_id == 2 {
            crate::messages::abort::deserialize(bytes)
        } else if type_id == 3 {
            crate::messages::acknowledgement::deserialize(bytes)
        } else if type_id == 4 {
            crate::messages::user_control::deserialize(bytes)
        } else if type_id == 5 {
            crate::messages::window_acknowledgement_size::deserialize(bytes)
        } else if type_id == 6 {
            crate::messages::set_peer_bandwidth::deserialize(bytes)
        } else if type_id == 8 {
            crate::messages::audio_data::deserialize(bytes)
        } else if type_id == 9 {
            crate::messages::video_data::deserialize(bytes)
        } else if type_id == 18 {
            crate::messages::amf0_data::deserialize(bytes)
        } else if type_id == 20 {
            crate::messages::amf0_command::deserialize(bytes)
        } else {
            Ok(RtmpMessage::Unknown { type_id, data: bytes })
        }
    }
}

} // verus!
