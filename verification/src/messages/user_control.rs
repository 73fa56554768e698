//! The UserControl message: small control events such as stream begin and
//! end, buffer length hints and pings.  The body is a 2-byte event code
//! followed by the fields that event carries.

use vstd::prelude::*;

use crate::rtmp_message::{
    spec_deserialize_message, spec_deserialize_user_control, spec_encode_user_control,
    spec_event_code, spec_field_or_zero, spec_serialize_message, MessageDeserializationError,
    MessageSerializationError, MessageView, RawRtmpMessage, RtmpMessage, UserControlEventType,
};
use crate::timestamp::RtmpTimestamp;
use crate::utils::{read_u16_be, read_u32_be, write_u16_be, write_u32_be};

verus! {

/// Encodes a UserControl message body.  A field the event needs but the
/// caller left out is written as zero.
pub fn serialize(
    event_type: UserControlEventType,
    stream_id: Option<u32>,
    buffer_length: Option<u32>,
    timestamp: Option<RtmpTimestamp>,
) -> (r: Result<RawRtmpMessage, MessageSerializationError>)
    ensures
        match spec_serialize_message(
            MessageView::UserControl {
                event_type,
                stream_id,
                buffer_length,
                timestamp: match timestamp {
                    Some(t) => Some(t.value),
                    None => None,
                },
            },
        ) {
            Ok(raw) => r matches Ok(v) && v@ == raw,
            Err(e) => r == Err::<RawRtmpMessage, MessageSerializationError>(e),
        },
{
    let mut data: Vec<u8> = Vec::new();
    let ghost ts_value = match timestamp {
        Some(t) => Some(t.value),
        None => None::<u32>,
    };
    match event_type {
        UserControlEventType::StreamBegin => write_stream_event(&mut data, 0, stream_id),
        UserControlEventType::StreamEof => write_stream_event(&mut data, 1, stream_id),
        UserControlEventType::StreamDry => write_stream_event(&mut data, 2, stream_id),
        UserControlEventType::SetBufferLength => {
            write_length_event(&mut data, 3, stream_id, buffer_length)
        },
        UserControlEventType::StreamIsRecorded => write_stream_event(&mut data, 4, stream_id),
        UserControlEventType::PingRequest => write_timestamp_event(&mut data, 6, timestamp),
        UserControlEventType::PingResponse => write_timestamp_event(&mut data, 7, timestamp),
    }
    proof {
        assert(data@ =~= spec_encode_user_control(event_type, stream_id, buffer_length, ts_value));
    }
    Ok(RawRtmpMessage { data, type_id: 4 })
}

/// Decodes a UserControl message body, rejecting unknown event codes.
pub fn deserialize(data: Vec<u8>) -> (r: Result<RtmpMessage, MessageDeserializationError>)
    ensures
        match spec_deserialize_message(data@, 4) {
            Ok(m) => r matches Ok(v) && v@ == m,
            Err(e) => r == Err::<RtmpMessage, MessageDeserializationError>(e),
        },
{
    if data.len() < 2 {
        return Err(MessageDeserializationError::InvalidMessageFormat);
    }
    let code = read_u16_be(&data, 0);
    if code == 0 || code == 1 || code == 2 || code == 4 {
        if data.len() < 6 {
            return Err(MessageDeserializationError::InvalidMessageFormat);
        }
        let event_type = if code == 0 {
            UserControlEventType::StreamBegin
        } else if code == 1 {
            UserControlEventType::StreamEof
        } else if code == 2 {
            UserControlEventType::StreamDry
        } else {
            UserControlEventType::StreamIsRecorded
        };
        Ok(
            RtmpMessage::UserControl {
                event_type,
                stream_id: Some(read_u32_be(&data, 2)),
                buffer_length: None,
                timestamp: None,
            },
        )
    } else if code == 3 {
        if data.len() < 10 {
            return Err(MessageDeserializationError::InvalidMessageFormat);
        }
        Ok(
            RtmpMessage::UserControl {
                event_type: UserControlEventType::SetBufferLength,
                stream_id: Some(read_u32_be(&data, 2)),
                buffer_length: Some(read_u32_be(&data, 6)),
                timestamp: None,
            },
        )
    } else if code == 6 || code == 7 {
        if data.len() < 6 {
            return Err(MessageDeserializationError::InvalidMessageFormat);
        }
        let event_type = if code == 6 {
            UserControlEventType::PingRequest
        } else {
            UserControlEventType::PingResponse
        };
        Ok(
            RtmpMessage::UserControl {
                event_type,
                stream_id: None,
                buffer_length: None,
                timestamp: Some(RtmpTimestamp::new(read_u32_be(&data, 2))),
            },
        )
    } else {
        Err(MessageDeserializationError::InvalidMessageFormat)
    }
}

/// Writes an event that carries a stream id: the code, then the id or zero.
fn write_stream_event(bytes: &mut Vec<u8>, event_id: u16, stream_id: Option<u32>)
    ensures
        final(bytes)@ == old(bytes)@ + crate::utils::u16_be_bytes(event_id)
            + crate::utils::u32_be_bytes(spec_field_or_zero(stream_id)),
{
    write_u16_be(bytes, event_id);
    match stream_id {
        Some(x) => write_u32_be(bytes, x),
        None => write_u32_be(bytes, 0),
    }
    proof {
        assert(bytes@ =~= old(bytes)@ + crate::utils::u16_be_bytes(event_id)
            + crate::utils::u32_be_bytes(spec_field_or_zero(stream_id)));
    }
}

/// Writes the buffer length event: the code, the stream id and the length,
/// absent fields as zero.
fn write_length_event(
    bytes: &mut Vec<u8>,
    event_id: u16,
    stream_id: Option<u32>,
    length: Option<u32>,
)
    ensures
        final(bytes)@ == old(bytes)@ + crate::utils::u16_be_bytes(event_id)
            + crate::utils::u32_be_bytes(spec_field_or_zero(stream_id))
            + crate::utils::u32_be_bytes(spec_field_or_zero(length)),
{
    write_u16_be(bytes, event_id);
    match stream_id {
        Some(x) => write_u32_be(bytes, x),
        None => write_u32_be(bytes, 0),
    }
    match length {
        Some(x) => write_u32_be(bytes, x),
        None => write_u32_be(bytes, 0),
    }
    proof {
        assert(bytes@ =~= old(bytes)@ + crate::utils::u16_be_bytes(event_id)
            + crate::utils::u32_be_bytes(spec_field_or_zero(stream_id))
            + crate::utils::u32_be_bytes(spec_field_or_zero(length)));
    }
}

/// Writes a ping event: the code, then the timestamp or zero.
fn write_timestamp_event(bytes: &mut Vec<u8>, event_id: u16, timestamp: Option<RtmpTimestamp>)
    ensures
        final(bytes)@ == old(bytes)@ + crate::utils::u16_be_bytes(event_id)
            + crate::utils::u32_be_bytes(
            match timestamp {
                Some(t) => t.value,
                None => 0,
            },
        ),
{
    write_u16_be(bytes, event_id);
    match timestamp {
        Some(x) => write_u32_be(bytes, x.value),
        None => write_u32_be(bytes, 0),
    }
    proof {
        assert(bytes@ =~= old(bytes)@ + crate::utils::u16_be_bytes(event_id)
            + crate::utils::u32_be_bytes(
            match timestamp {
                Some(t) => t.value,
                None => 0,
            },
        ));
    }
}

} // verus!
