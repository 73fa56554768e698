//! The SetChunkSize message: announces the sender's new maximum chunk size.
//! The body is the size, big-endian, with the top bit required to be zero.

use vstd::prelude::*;

use crate::rtmp_message::{
    spec_deserialize_message, spec_serialize_message, MessageDeserializationError,
    MessageSerializationError, MessageView, RawRtmpMessage, RtmpMessage, MAX_CHUNK_SIZE,
};
use crate::utils::{read_u32_be, write_u32_be};

verus! {

/// Encodes a SetChunkSize message body, rejecting sizes of 2^31 or more.
pub fn serialize(size: u32) -> (r: Result<RawRtmpMessage, MessageSerializationError>)
    ensures
        match spec_serialize_message(MessageView::SetChunkSize { size }) {
            Ok(raw) => r matches Ok(v) && v@ == raw,
            Err(e) => r == Err::<RawRtmpMessage, MessageSerializationError>(e),
        },
{
    if size > MAX_CHUNK_SIZE {
        return Err(MessageSerializationError::InvalidChunkSize);
    }
    let mut data: Vec<u8> = Vec::new();
    write_u32_be(&mut data, size);
    proof {
        assert(data@ =~= crate::utils::u32_be_bytes(size));
    }
    Ok(RawRtmpMessage { data, type_id: 1 })
}

/// Decodes a SetChunkSize message body, rejecting sizes of 2^31 or more.
pub fn deserialize(data: Vec<u8>) -> (r: Result<RtmpMessage, MessageDeserializationError>)
    ensures
        match spec_deserialize_message(data@, 1) {
            Ok(m) => r matches Ok(v) && v@ == m,
            Err(e) => r == Err::<RtmpMessage, MessageDeserializationError>(e),
        },
{
    if data.len() < 4 {
        return Err(MessageDeserializationError::InvalidMessageFormat);
    }
    let size = read_u32_be(&data, 0);
    if size > MAX_CHUNK_SIZE {
        return Err(MessageDeserializationError::InvalidMessageFormat);
    }
    Ok(RtmpMessage::SetChunkSize { size })
}

} // verus!
