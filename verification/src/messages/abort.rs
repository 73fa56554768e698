//! The Abort message: asks the peer to discard a partially received message
//! on the given chunk stream.  The body is the stream id, big-endian.

use vstd::prelude::*;

use crate::rtmp_message::{
    spec_deserialize_message, spec_serialize_message, MessageDeserializationError,
    MessageSerializationError, MessageView, RawRtmpMessage, RtmpMessage,
};
use crate::utils::{read_u32_be, write_u32_be};

verus! {

/// Encodes an Abort message body.
pub fn serialize(stream_id: u32) -> (r: Result<RawRtmpMessage, MessageSerializationError>)
    ensures
        match spec_serialize_message(MessageView::Abort { stream_id }) {
            Ok(raw) => r matches Ok(v) && v@ == raw,
            Err(e) => r == Err::<RawRtmpMessage, MessageSerializationError>(e),
        },
{
    let mut data: Vec<u8> = Vec::new();
    write_u32_be(&mut data, stream_id);
    proof {
        assert(data@ =~= crate::utils::u32_be_bytes(stream_id));
    }
    Ok(RawRtmpMessage { data, type_id: 2 })
}

/// Decodes an Abort message body.
pub fn deserialize(data: Vec<u8>) -> (r: Result<RtmpMessage, MessageDeserializationError>)
    ensures
        match spec_deserialize_message(data@, 2) {
            Ok(m) => r matches Ok(v) && v@ == m,
            Err(e) => r == Err::<RtmpMessage, MessageDeserializationError>(e),
        },
{
    if data.len() < 4 {
        return Err(MessageDeserializationError::InvalidMessageFormat);
    }
    let stream_id = read_u32_be(&data, 0);
    Ok(RtmpMessage::Abort { stream_id })
}

} // verus!
