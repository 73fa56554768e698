//! The VideoData message: an opaque video frame, passed through verbatim.

use vstd::prelude::*;

use crate::rtmp_message::{
    spec_deserialize_message, spec_serialize_message, MessageDeserializationError,
    MessageSerializationError, MessageView, RawRtmpMessage, RtmpMessage,
};

verus! {

/// Encodes a VideoData message body: the bytes themselves.
pub fn serialize(data: Vec<u8>) -> (r: Result<RawRtmpMessage, MessageSerializationError>)
    ensures
        match spec_serialize_message(MessageView::VideoData { data: data@ }) {
            Ok(raw) => r matches Ok(v) && v@ == raw,
            Err(e) => r == Err::<RawRtmpMessage, MessageSerializationError>(e),
        },
{
    Ok(RawRtmpMessage { data, type_id: 9 })
}

/// Decodes a VideoData message body: the bytes themselves.
pub fn deserialize(data: Vec<u8>) -> (r: Result<RtmpMessage, MessageDeserializationError>)
    ensures
        match spec_deserialize_message(data@, 9) {
            Ok(m) => r matches Ok(v) && v@ == m,
            Err(e) => r == Err::<RtmpMessage, MessageDeserializationError>(e),
        },
{
    Ok(RtmpMessage::VideoData { data })
}

} // verus!
