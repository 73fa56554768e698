//! A decoded message together with the chunk-level context it travelled
//! with: its timestamp and message stream id.

use vstd::prelude::*;

use crate::message_payload::MessagePayload;
use crate::rtmp_message::{
    spec_deserialize_message, spec_serialize_message, MessageDeserializationError,
    MessageSerializationError, MessageView, RtmpMessage,
};
use crate::timestamp::RtmpTimestamp;

verus! {

/// The mathematical content of message details.
#[verifier::ext_equal]
pub struct DetailsView {
    pub timestamp: u32,
    pub stream_id: u32,
    pub message: MessageView,
}

/// A typed message with the timestamp and message stream id of the payload
/// that carried it.
#[derive(PartialEq, Debug)]
pub struct RtmpMessageDetails {
    pub rtmp_timestamp: RtmpTimestamp,
    pub stream_id: u32,
    pub message: RtmpMessage,
}

impl View for RtmpMessageDetails {
    type V = DetailsView;

    open spec fn view(&self) -> DetailsView {
        DetailsView {
            timestamp: self.rtmp_timestamp.value,
            stream_id: self.stream_id,
            message: self.message@,
        }
    }
}

impl RtmpMessageDetails {
    /// Decodes a payload's bytes by its type id and keeps the timestamp and
    /// stream id beside the typed message.
    pub fn from_payload(payload: MessagePayload) -> (r: Result<
        RtmpMessageDetails,
        MessageDeserializationError,
    >)
        ensures
            match spec_deserialize_message(payload@.data, payload@.type_id) {
                Ok(m) => r matches Ok(d) && d@ == (DetailsView {
                    timestamp: payload@.timestamp,
                    stream_id: payload@.stream_id,
                    message: m,
                }),
                Err(e) => r == Err::<RtmpMessageDetails, MessageDeserializationError>(e),
            },
    {
        let timestamp = payload.timestamp;
        let stream_id = payload.stream_id;
        let type_id = payload.type_id;
        let message = match RtmpMessage::deserialize(payload.data, type_id) {
            Ok(m) => m,
            Err(e) => {
                return Err(e);
            },
        };
        Ok(RtmpMessageDetails { rtmp_timestamp: timestamp, stream_id, message })
    }

    /// Encodes the typed message and restores the timestamp and stream id on
    /// the payload that will carry it.
    pub fn to_payload(self) -> (r: Result<MessagePayload, MessageSerializationError>)
        ensures
            match spec_serialize_message(self.message@) {
                Ok(raw) => r matches Ok(p) && p@.data == raw.data && p@.type_id == raw.type_id
                    && p@.timestamp == self.rtmp_timestamp.value && p@.stream_id == self.stream_id,
                Err(e) => r == Err::<MessagePayload, MessageSerializationError>(e),
            },
    {
        let timestamp = self.rtmp_timestamp;
        let stream_id = self.stream_id;
        let raw_message = match self.message.serialize() {
            Ok(raw) => raw,
            Err(e) => {
                return Err(e);
            },
        };
        Ok(
            MessagePayload {
                timestamp,
                stream_id,
                type_id: raw_message.type_id,
                data: raw_message.data,
            },
        )
    }
}

} // verus!
