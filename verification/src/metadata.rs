//! Metadata a publisher announces about its stream.

use vstd::prelude::*;

verus! {

/// The mathematical content of stream metadata.
#[verifier::ext_equal]
pub struct MetadataView {
    pub video_width: Option<u32>,
    pub video_height: Option<u32>,
    pub video_codec: Option<Seq<char>>,
    pub video_frame_rate: Option<u64>,
    pub video_bitrate_kbps: Option<u32>,
    pub audio_codec: Option<Seq<char>>,
    pub audio_bitrate_kbps: Option<u32>,
    pub audio_sample_rate: Option<u32>,
    pub audio_channels: Option<u32>,
    pub audio_is_stereo: Option<bool>,
    pub encoder: Option<Seq<char>>,
}

/// What a publisher said about its stream, every field optional.  The frame
/// rate is carried as the IEEE-754 bit pattern of the announced 64-bit
/// value, as with AMF0 numbers.
#[derive(PartialEq, Debug)]
pub struct StreamMetadata {
    pub video_width: Option<u32>,
    pub video_height: Option<u32>,
    pub video_codec: Option<String>,
    pub video_frame_rate: Option<u64>,
    pub video_bitrate_kbps: Option<u32>,
    pub audio_codec: Option<String>,
    pub audio_bitrate_kbps: Option<u32>,
    pub audio_sample_rate: Option<u32>,
    pub audio_channels: Option<u32>,
    pub audio_is_stereo: Option<bool>,
    pub encoder: Option<String>,
}

/// The view of an optional string.
pub open spec fn option_string_view(v: Option<String>) -> Option<Seq<char>> {
    match v {
        Some(s) => Some(s@),
        None => None,
    }
}

impl View for StreamMetadata {
    type V = MetadataView;

    open spec fn view(&self) -> MetadataView {
        MetadataView {
            video_width: self.video_width,
            video_height: self.video_height,
            video_codec: option_string_view(self.video_codec),
            video_frame_rate: self.video_frame_rate,
            video_bitrate_kbps: self.video_bitrate_kbps,
            audio_codec: option_string_view(self.audio_codec),
            audio_bitrate_kbps: self.audio_bitrate_kbps,
            audio_sample_rate: self.audio_sample_rate,
            audio_channels: self.audio_channels,
            audio_is_stereo: self.audio_is_stereo,
            encoder: option_string_view(self.encoder),
        }
    }
}

} // verus!
