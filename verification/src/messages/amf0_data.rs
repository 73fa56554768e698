//! The Amf0Data message: a sequence of AMF0 values carrying metadata or
//! script data.

use vstd::prelude::*;

use crate::amf0::{self, Amf0Value};
use crate::rtmp_message::{
    spec_deserialize_message, spec_serialize_message, MessageDeserializationError,
    MessageSerializationError, MessageView, RawRtmpMessage, RtmpMessage,
};

verus! {

/// Encodes an Amf0Data message body: the values' AMF0 encodings in order.
pub fn serialize(values: Vec<Amf0Value>) -> (r: Result<RawRtmpMessage, MessageSerializationError>)
    ensures
        match spec_serialize_message(MessageView::Amf0Data { values: amf0::values_view(values@) }) {
            Ok(raw) => r matches Ok(v) && v@ == raw,
            Err(e) => r == Err::<RawRtmpMessage, MessageSerializationError>(e),
        },
{
    match amf0::serialize(&values) {
        Ok(data) => Ok(RawRtmpMessage { data, type_id: 18 }),
        Err(e) => Err(MessageSerializationError::Amf0SerializationError(e)),
    }
}

/// Decodes an Amf0Data message body.
pub fn deserialize(data: Vec<u8>) -> (r: Result<RtmpMessage, MessageDeserializationError>)
    ensures
        match spec_deserialize_message(data@, 18) {
            Ok(m) => r matches Ok(v) && v@ == m,
            Err(e) => r == Err::<RtmpMessage, MessageDeserializationError>(e),
        },
{
    match amf0::deserialize(&data) {
        Ok(values) => Ok(RtmpMessage::Amf0Data { values }),
        Err(e) => Err(MessageDeserializationError::Amf0DeserializationError(e)),
    }
}

} // verus!
