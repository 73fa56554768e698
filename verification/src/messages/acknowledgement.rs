//! The Acknowledgement message: reports how many bytes have been received.
//! The body is the sequence number, big-endian.

use vstd::prelude::*;

use crate::rtmp_message::{
    spec_deserialize_message, spec_serialize_message, MessageDeserializationError,
    MessageSerializationError, MessageView, RawRtmpMessage, RtmpMessage,
};
use crate::utils::{read_u32_be, write_u32_be};

verus! {

/// Encodes an Acknowledgement message body.
pub fn serialize(sequence_number: u32) -> (r: Result<RawRtmpMessage, MessageSerializationError>)
    ensures
        match spec_serialize_message(MessageView::Acknowledgement { sequence_number }) {
            Ok(raw) => r matches Ok(v) && v@ == raw,
            Err(e) => r == Err::<RawRtmpMessage, MessageSerializationError>(e),
        },
{
    let mut data: Vec<u8> = Vec::new();
    write_u32_be(&mut data, sequence_number);
    proof {
        assert(data@ =~= crate::utils::u32_be_bytes(sequence_number));
    }
    Ok(RawRtmpMessage { data, type_id: 3 })
}

/// Decodes an Acknowledgement message body.
pub fn deserialize(data: Vec<u8>) -> (r: Result<RtmpMessage, MessageDeserializationError>)
    ensures
        match spec_deserialize_message(data@, 3) {
            Ok(m) => r matches Ok(v) && v@ == m,
            Err(e) => r == Err::<RtmpMessage, MessageDeserializationError>(e),
        },
{
    if data.len() < 4 {
        return Err(MessageDeserializationError::InvalidMessageFormat);
    }
    let sequence_number = read_u32_be(&data, 0);
    Ok(RtmpMessage::Acknowledgement { sequence_number })
}

} // verus!
