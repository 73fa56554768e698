//! One module per known message type: each encodes its fields into payload
//! bytes and decodes payload bytes back.

pub mod abort;
pub mod acknowledgement;
pub mod amf0_command;
pub mod amf0_data;
pub mod audio_data;
pub mod set_chunk_size;
pub mod set_peer_bandwidth;
pub mod user_control;
pub mod video_data;
pub mod window_acknowledgement_size;
