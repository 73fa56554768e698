//! The message kinds this crate can encode and decode.

use vstd::prelude::*;

verus! {

/// The RTMP message types the typed codec knows.
#[derive(Eq, PartialEq, Structural, Debug, Copy, Clone)]
pub enum KnownMessageType {
    Abort,
    Acknowledgement,
    Amf0Command,
    Amf0Data,
    AudioData,
    SetChunkSize,
    SetPeerBandwidth,
    UserControl,
    VideoData,
    WindowAcknowledgement,
}

} // verus!
