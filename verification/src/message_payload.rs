//! The unit exchanged between the chunk codec and the message codec: one
//! complete RTMP message as a timestamp, type id, stream id and raw bytes.

use vstd::prelude::*;

use crate::timestamp::RtmpTimestamp;

verus! {

/// The mathematical content of a message payload.
#[verifier::ext_equal]
pub struct PayloadView {
    pub timestamp: u32,
    pub type_id: u8,
    pub stream_id: u32,
    pub data: Seq<u8>,
}

/// A complete RTMP message as carried by the chunk stream.  The data is at
/// most 2^24 - 1 bytes long on the wire, the capacity of the 3-byte length
/// field.
#[derive(PartialEq, Debug)]
pub struct MessagePayload {
    pub timestamp: RtmpTimestamp,
    pub type_id: u8,
    pub stream_id: u32,
    pub data: Vec<u8>,
}

impl View for MessagePayload {
    type V = PayloadView;

    open spec fn view(&self) -> PayloadView {
        PayloadView {
            timestamp: self.timestamp.value,
            type_id: self.type_id,
            stream_id: self.stream_id,
            data: self.data@,
        }
    }
}

impl MessagePayload {
    /// An empty payload: zero timestamp, type id and stream id, no data.
    pub fn new() -> (r: Self)
        ensures
            r@ == (PayloadView { timestamp: 0, type_id: 0, stream_id: 0, data: Seq::empty() }),
    {
        let r = MessagePayload {
            timestamp: RtmpTimestamp::new(0),
            type_id: 0,
            stream_id: 0,
            data: Vec::new(),
        };
        proof {
            assert(r@.data =~= Seq::<u8>::empty());
        }
        r
    }
}

} // verus!
