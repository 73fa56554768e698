//! Chunk headers and their four wire formats.
//!
//! A chunk header carries the fields of the message it belongs to; the format
//! decides which of them are present on the wire, the rest being inherited
//! from the previous header on the same chunk stream.

use vstd::prelude::*;

use crate::timestamp::RtmpTimestamp;

verus! {

/// The four chunk header formats, in order of decreasing completeness.
#[derive(Eq, PartialEq, Structural, Debug, Copy, Clone)]
pub enum ChunkHeaderFormat {
    /// Format 0: every field present, absolute timestamp.
    Full,
    /// Format 1: no message stream id; the timestamp field is a delta.
    TimeDeltaWithoutMessageStreamId,
    /// Format 2: only a timestamp delta.
    TimeDeltaOnly,
    /// Format 3: no header fields at all.
    Empty,
}

/// The assembled header of the chunk currently being read or written.  After
/// a Full header every field is explicit; later formats fill the gaps from
/// the cached previous header of the same chunk stream.
#[derive(Eq, PartialEq, Structural, Debug, Copy, Clone)]
pub struct ChunkHeader {
    pub chunk_stream_id: u32,
    pub timestamp: RtmpTimestamp,
    pub timestamp_delta: u32,
    pub message_length: u32,
    pub message_type_id: u8,
    pub message_stream_id: u32,
}

impl ChunkHeader {
    /// A header with every field zero.
    pub fn new() -> (r: ChunkHeader)
        ensures
            r == ChunkHeader::spec_new(),
    {
        ChunkHeader {
            chunk_stream_id: 0,
            timestamp: RtmpTimestamp { value: 0 },
            timestamp_delta: 0,
            message_length: 0,
            message_type_id: 0,
            message_stream_id: 0,
        }
    }

    /// The all-zero header that `new` returns.
    pub open spec fn spec_new() -> ChunkHeader {
        ChunkHeader {
            chunk_stream_id: 0,
            timestamp: RtmpTimestamp { value: 0 },
            timestamp_delta: 0,
            message_length: 0,
            message_type_id: 0,
            message_stream_id: 0,
        }
    }
}

} // verus!
