//! The WindowAcknowledgement message: how many bytes may be sent before an
//! acknowledgement is expected.  The body is the size, big-endian.

use vstd::prelude::*;

use crate::rtmp_message::{
    spec_deserialize_message, spec_serialize_message, MessageDeserializationError,
    MessageSerializationError, MessageView, RawRtmpMessage, RtmpMessage,
};
use crate::utils::{read_u32_be, write_u32_be};

verus! {

/// Encodes a WindowAcknowledgement message body.
pub fn serialize(size: u32) -> (r: Result<RawRtmpMessage, MessageSerializationError>)
    ensures
        match spec_serialize_message(MessageView::WindowAcknowledgement { size }) {
            Ok(raw) => r matches Ok(v) && v@ == raw,
            Err(e) => r == Err::<RawRtmpMessage, MessageSerializationError>(e),
        },
{
    let mut data: Vec<u8> = Vec::new();
    write_u32_be(&mut data, size);
    proof {
        assert(data@ =~= crate::utils::u32_be_bytes(size));
    }
    Ok(RawRtmpMessage { data, type_id: 5 })
}

/// Decodes a WindowAcknowledgement message body.
pub fn deserialize(data: Vec<u8>) -> (r: Result<RtmpMessage, MessageDeserializationError>)
    ensures
        match spec_deserialize_message(data@, 5) {
            Ok(m) => r matches Ok(v) && v@ == m,
            Err(e) => r == Err::<RtmpMessage, MessageDeserializationError>(e),
        },
{
    if data.len() < 4 {
        return Err(MessageDeserializationError::InvalidMessageFormat);
    }
    let size = read_u32_be(&data, 0);
    Ok(RtmpMessage::WindowAcknowledgement { size })
}

} // verus!
