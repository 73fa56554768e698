//! The SetPeerBandwidth message: asks the peer to limit its output
//! bandwidth.  The body is the size, big-endian, followed by one byte naming
//! how strictly the limit applies.

use vstd::prelude::*;

use crate::rtmp_message::{
    spec_deserialize_message, spec_serialize_message, MessageDeserializationError,
    MessageSerializationError, MessageView, PeerBandwidthLimitType, RawRtmpMessage, RtmpMessage,
};
use crate::utils::{read_u32_be, write_u32_be};

verus! {

/// Encodes a SetPeerBandwidth message body.
pub fn serialize(limit_type: PeerBandwidthLimitType, size: u32) -> (r: Result<
    RawRtmpMessage,
    MessageSerializationError,
>)
    ensures
        match spec_serialize_message(MessageView::SetPeerBandwidth { size, limit_type }) {
            Ok(raw) => r matches Ok(v) && v@ == raw,
            Err(e) => r == Err::<RawRtmpMessage, MessageSerializationError>(e),
        },
{
    let mut data: Vec<u8> = Vec::new();
    write_u32_be(&mut data, size);
    let limit_byte: u8 = match limit_type {
        PeerBandwidthLimitType::Hard => 0,
        PeerBandwidthLimitType::Soft => 1,
        PeerBandwidthLimitType::Dynamic => 2,
    };
    data.push(limit_byte);
    proof {
        assert(data@ =~= crate::utils::u32_be_bytes(size) + seq![limit_byte]);
    }
    Ok(RawRtmpMessage { data, type_id: 6 })
}

/// Decodes a SetPeerBandwidth message body, rejecting unknown limit types.
pub fn deserialize(data: Vec<u8>) -> (r: Result<RtmpMessage, MessageDeserializationError>)
    ensures
        match spec_deserialize_message(data@, 6) {
            Ok(m) => r matches Ok(v) && v@ == m,
            Err(e) => r == Err::<RtmpMessage, MessageDeserializationError>(e),
        },
{
    if data.len() < 5 {
        return Err(MessageDeserializationError::InvalidMessageFormat);
    }
    let size = read_u32_be(&data, 0);
    let limit_type = if data[4] == 0 {
        PeerBandwidthLimitType::Hard
    } else if data[4] == 1 {
        PeerBandwidthLimitType::Soft
    } else if data[4] == 2 {
        PeerBandwidthLimitType::Dynamic
    } else {
        return Err(MessageDeserializationError::InvalidMessageFormat);
    };
    Ok(RtmpMessage::SetPeerBandwidth { size, limit_type })
}

} // verus!
