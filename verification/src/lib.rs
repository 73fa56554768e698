//! A verified codec for the RTMP chunk stream and its message formats.
//!
//! The crate turns a raw byte stream exchanged with an RTMP peer into typed
//! messages and back: a stateful chunk deserializer and serializer with
//! per-chunk-stream header compression, an AMF0 value codec, a typed message
//! codec dispatching on message type ids, and a session processor that drives
//! the connect choreography.

pub mod timestamp;
pub mod utils;
pub mod message_payload;
pub mod chunk_header;
pub mod amf0;
pub mod deserialization;
pub mod serialization;
pub mod known_message_type;
pub mod rtmp_message;
pub mod messages;
pub mod rtmp_message_details;
pub mod metadata;
pub mod events;
pub mod processor;
pub mod roundtrip;
