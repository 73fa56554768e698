//! The AudioData message: an opaque audio frame, passed through verbatim.

use vstd::prelude::*;

use crate::rtmp_message::{
    spec_deserialize_message, spec_serialize_message, MessageDeserializationError,
    MessageSerializationError, MessageView, RawRtmpMessage, RtmpMessage,
};

verus! {

/// An audio frame on its own, for callers that deal in audio alone.
#[derive(Eq, PartialEq, Debug)]
pub struct AudioDataMessage {
    pub data: Vec<u8>,
}

impl AudioDataMessage {
    /// Wraps received audio bytes.
    pub fn deserialize(data: Vec<u8>) -> (r: Result<AudioDataMessage, MessageDeserializationError>)
        ensures
            r matches Ok(m) && m.data@ == data@,
    {
        Ok(AudioDataMessage { data })
    }

    /// Unwraps the audio bytes to send.
    pub fn serialize(self) -> (r: Result<Vec<u8>, MessageSerializationError>)
        ensures
            r matches Ok(d) && d@ == self.data@,
    {
        Ok(self.data)
    }

    /// The message type id audio data travels under.
    pub fn get_type_id() -> (r: u8)
        ensures
            r == 8,
    {
        8
    }
}

/// Encodes an AudioData message body: the bytes themselves.
pub fn serialize(data: Vec<u8>) -> (r: Result<RawRtmpMessage, MessageSerializationError>)
    ensures
        match spec_serialize_message(MessageView::AudioData { data: data@ }) {
            Ok(raw) => r matches Ok(v) && v@ == raw,
            Err(e) => r == Err::<RawRtmpMessage, MessageSerializationError>(e),
        },
{
    Ok(RawRtmpMessage { data, type_id: 8 })
}

/// Decodes an AudioData message body: the bytes themselves.
pub fn deserialize(data: Vec<u8>) -> (r: Result<RtmpMessage, MessageDeserializationError>)
    ensures
        match spec_deserialize_message(data@, 8) {
            Ok(m) => r matches Ok(v) && v@ == m,
            Err(e) => r == Err::<RtmpMessage, MessageDeserializationError>(e),
        },
{
    Ok(RtmpMessage::AudioData { data })
}

} // verus!
