//! What the processor reports to the application: requests awaiting a
//! verdict, configuration changes, and media passed through.

use vstd::prelude::*;

use crate::metadata::{MetadataView, StreamMetadata};

verus! {

/// The mathematical content of an event.
#[verifier::ext_equal]
pub enum EventView {
    PeerChunkSizeChanged { new_chunk_size: u32 },
    SelfChunkSizeChanged { new_chunk_size: u32 },
    ConnectionRequested { request_id: u32, application_name: Seq<char> },
    ReleaseStreamRequested { request_id: u32, application_name: Seq<char>, stream_key: Seq<char> },
    PublishStreamRequested { request_id: u32, application_name: Seq<char>, stream_key: Seq<char> },
    StreamMetaDataChanged {
        application_name: Seq<char>,
        stream_key: Seq<char>,
        meta_data: MetadataView,
    },
    AudioDataReceived { application_name: Seq<char>, stream_key: Seq<char>, data: Seq<u8> },
    VideoDataReceived { application_name: Seq<char>, stream_key: Seq<char>, data: Seq<u8> },
    UnhandleableAmf0Command { command_name: Seq<char> },
}

/// An application-visible event the processor raised.
#[derive(PartialEq, Debug)]
pub enum ProcessorEvent {
    /// The peer announced a new maximum chunk size; the deserializer should
    /// be told.
    PeerChunkSizeChanged { new_chunk_size: u32 },
    /// This side chose a new maximum chunk size; the serializer should be
    /// told.
    SelfChunkSizeChanged { new_chunk_size: u32 },
    /// The peer asked to connect to an application; answer with
    /// `accept_request` or `reject_request`.
    ConnectionRequested { request_id: u32, application_name: String },
    /// The peer asked to release a stream key.
    ReleaseStreamRequested { request_id: u32, application_name: String, stream_key: String },
    /// The peer asked to publish on a stream key.
    PublishStreamRequested { request_id: u32, application_name: String, stream_key: String },
    /// The peer announced new stream metadata.
    StreamMetaDataChanged { application_name: String, stream_key: String, meta_data: StreamMetadata },
    /// The peer sent audio for a published stream.
    AudioDataReceived { application_name: String, stream_key: String, data: Vec<u8> },
    /// The peer sent video for a published stream.
    VideoDataReceived { application_name: String, stream_key: String, data: Vec<u8> },
    /// The peer sent a command this processor does not know.
    UnhandleableAmf0Command { command_name: String },
}

impl View for ProcessorEvent {
    type V = EventView;

    open spec fn view(&self) -> EventView {
        match self {
            ProcessorEvent::PeerChunkSizeChanged { new_chunk_size } => {
                EventView::PeerChunkSizeChanged { new_chunk_size: *new_chunk_size }
            },
            ProcessorEvent::SelfChunkSizeChanged { new_chunk_size } => {
                EventView::SelfChunkSizeChanged { new_chunk_size: *new_chunk_size }
            },
            ProcessorEvent::ConnectionRequested { request_id, application_name } => {
                EventView::ConnectionRequested {
                    request_id: *request_id,
                    application_name: application_name@,
                }
            },
            ProcessorEvent::ReleaseStreamRequested { request_id, application_name, stream_key } => {
                EventView::ReleaseStreamRequested {
                    request_id: *request_id,
                    application_name: application_name@,
                    stream_key: stream_key@,
                }
            },
            ProcessorEvent::PublishStreamRequested { request_id, application_name, stream_key } => {
                EventView::PublishStreamRequested {
                    request_id: *request_id,
                    application_name: application_name@,
                    stream_key: stream_key@,
                }
            },
            ProcessorEvent::StreamMetaDataChanged { application_name, stream_key, meta_data } => {
                EventView::StreamMetaDataChanged {
                    application_name: application_name@,
                    stream_key: stream_key@,
                    meta_data: meta_data@,
                }
            },
            ProcessorEvent::AudioDataReceived { application_name, stream_key, data } => {
                EventView::AudioDataReceived {
                    application_name: application_name@,
                    stream_key: stream_key@,
                    data: data@,
                }
            },
            ProcessorEvent::VideoDataReceived { application_name, stream_key, data } => {
                EventView::VideoDataReceived {
                    application_name: application_name@,
                    stream_key: stream_key@,
                    data: data@,
                }
            },
            ProcessorEvent::UnhandleableAmf0Command { command_name } => {
                EventView::UnhandleableAmf0Command { command_name: command_name@ }
            },
        }
    }
}

} // verus!
