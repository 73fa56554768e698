//! The session processor: consumes decoded messages, emits response messages
//! to send and events for the application, and tracks requests the
//! application must accept or reject.
//!
//! Only the connect choreography is implemented here: a peer's connect
//! command mints a pending request and announces bandwidth settings, and
//! accepting the request emits the success command.  Chunk-size changes are
//! passed through as events; everything else is reported as unhandleable.

use vstd::prelude::*;

use crate::amf0::{
    spec_find_property, values_view, Amf0Object, Amf0PropertyView, Amf0Value, Amf0ValueView,
    lemma_values_view_index,
};
use crate::events::{EventView, ProcessorEvent};
use crate::rtmp_message::{MessageView, PeerBandwidthLimitType, RtmpMessage};
use crate::rtmp_message_details::{DetailsView, RtmpMessageDetails};
use crate::timestamp::{spec_add_values, RtmpTimestamp};

verus! {

broadcast use vstd::std_specs::hash::group_hash_axioms;

use vstd::string::StringExecFns;

/// The IEEE-754 bit pattern of the 64-bit value zero, the object encoding
/// the success response announces.
pub const F64_BITS_ZERO: u64 = 0;

/// The IEEE-754 bit pattern of the 64-bit value one, the transaction id of
/// the success response.
pub const F64_BITS_ONE: u64 = 0x3FF0000000000000;

/// The IEEE-754 bit pattern of the 64-bit value thirty-one, the capability
/// set the success response announces.
pub const F64_BITS_THIRTY_ONE: u64 = 0x403F000000000000;

/// Why the processor refused an operation.
#[derive(Eq, PartialEq, Structural, Debug, Copy, Clone)]
pub enum RtmpProcessorError {
    /// The request id belongs to no outstanding request.
    UnknownRequestId,
    /// Every request id is taken by an outstanding request.
    AllRequestIdsInUse,
}

/// How far the connect choreography has come.
#[derive(Eq, PartialEq, Structural, Debug, Copy, Clone)]
pub enum ProcessorPhase {
    Started,
    ConnectionRequested,
    ConnectionAccepted,
}

/// What the application provides to a new processor.
#[derive(PartialEq, Debug)]
pub struct RtmpProcessorConfig {
    /// The server version string announced in the connect success response.
    pub version: String,
    /// The peer bandwidth announced on a connect request.
    pub peer_bandwidth: u32,
    /// The acknowledgement window announced on a connect request.
    pub window_ack_size: u32,
}

/// One thing the processor asks of the application.
#[derive(PartialEq, Debug)]
pub enum ProcessorResult {
    /// A message to serialize and send to the peer.
    ResponseMessage(RtmpMessageDetails),
    /// An event for the application.
    RaisedEvent(ProcessorEvent),
    /// A message the processor cannot act on, passed back whole.
    UnhandleableMessage(RtmpMessageDetails),
}

/// The mathematical content of a processor result.
#[verifier::ext_equal]
pub enum ResultView {
    ResponseMessage(DetailsView),
    RaisedEvent(EventView),
    UnhandleableMessage(DetailsView),
}

impl View for ProcessorResult {
    type V = ResultView;

    open spec fn view(&self) -> ResultView {
        match self {
            ProcessorResult::ResponseMessage(d) => ResultView::ResponseMessage(d@),
            ProcessorResult::RaisedEvent(e) => ResultView::RaisedEvent(e@),
            ProcessorResult::UnhandleableMessage(d) => ResultView::UnhandleableMessage(d@),
        }
    }
}

/// The models of a list of results, in order.
pub open spec fn results_view(s: Seq<ProcessorResult>) -> Seq<ResultView>
    decreases s.len(),
{
    if s.len() == 0 {
        Seq::empty()
    } else {
        seq![s[0]@] + results_view(s.drop_first())
    }
}

/// A result list's model has one entry per result, in order.
pub proof fn lemma_results_view_index(s: Seq<ProcessorResult>)
    ensures
        results_view(s).len() == s.len(),
        forall|i: int| 0 <= i < s.len() ==> results_view(s)[i] == s[i]@,
    decreases s.len(),
{
    if s.len() > 0 {
        lemma_results_view_index(s.drop_first());
    }
}

/// Concatenating result lists concatenates their models.
pub proof fn lemma_results_view_concat(a: Seq<ProcessorResult>, b: Seq<ProcessorResult>)
    ensures
        results_view(a + b) == results_view(a) + results_view(b),
{
    lemma_results_view_index(a + b);
    lemma_results_view_index(a);
    lemma_results_view_index(b);
    assert(results_view(a + b) =~= results_view(a) + results_view(b));
}

/// The models of a list of message details, in order.
pub open spec fn details_views(s: Seq<RtmpMessageDetails>) -> Seq<DetailsView>
    decreases s.len(),
{
    if s.len() == 0 {
        Seq::empty()
    } else {
        seq![s[0]@] + details_views(s.drop_first())
    }
}

/// A details list's model has one entry per element, in order.
pub proof fn lemma_details_views_index(s: Seq<RtmpMessageDetails>)
    ensures
        details_views(s).len() == s.len(),
        forall|i: int| 0 <= i < s.len() ==> details_views(s)[i] == s[i]@,
    decreases s.len(),
{
    if s.len() > 0 {
        lemma_details_views_index(s.drop_first());
    }
}

/// The mathematical state of a processor.
#[verifier::ext_equal]
pub struct ProcView {
    /// The version string announced on success.
    pub version: Seq<char>,
    /// The peer bandwidth announced on a connect request.
    pub peer_bandwidth: u32,
    /// The acknowledgement window announced on a connect request.
    pub window_ack_size: u32,
    /// How far the connect choreography has come.
    pub phase: ProcessorPhase,
    /// Where the search for the next free request id starts.
    pub next_request_id: u32,
    /// The application name of each request awaiting a verdict.
    pub outstanding_requests: Map<u32, Seq<char>>,
    /// The application the accepted connection named.
    pub application_name: Option<Seq<char>>,
}

/// The error response to a command the processor cannot honour: an `_error`
/// command echoing the transaction id, with a null command object.
pub open spec fn spec_error_response(stream_id: u32, transaction_id: u64) -> ResultView {
    ResultView::ResponseMessage(
        DetailsView {
            timestamp: 0,
            stream_id,
            message: MessageView::Amf0Command {
                command_name: "_error"@,
                transaction_id,
                command_object: Amf0ValueView::Null,
                additional_arguments: Seq::empty(),
            },
        },
    )
}

/// The first free request id at or after `candidate`, trying at most
/// `remaining` further ids; `None` when every tried id is taken.
pub open spec fn spec_free_request_id(
    occupied: Map<u32, Seq<char>>,
    candidate: u32,
    remaining: nat,
) -> Option<u32>
    decreases remaining,
{
    if !occupied.contains_key(candidate) {
        Some(candidate)
    } else if remaining == 0 {
        None
    } else {
        spec_free_request_id(occupied, spec_add_values(candidate, 1), (remaining - 1) as nat)
    }
}

/// The request id the processor mints next: the first free id at or after
/// the wrapping counter, every id tried once; `None` when all 2^32 ids are
/// outstanding.
pub open spec fn spec_next_request_id(p: ProcView) -> Option<u32> {
    spec_free_request_id(p.outstanding_requests, p.next_request_id, 0xFFFFFFFF as nat)
}

/// What a connect request emits: the configured bandwidth settings to send,
/// then the event asking the application for a verdict.
pub open spec fn spec_connect_responses(p: ProcView, request_id: u32, app: Seq<char>) -> Seq<
    ResultView,
> {
    seq![
        ResultView::ResponseMessage(
            DetailsView {
                timestamp: 0,
                stream_id: 0,
                message: MessageView::SetPeerBandwidth {
                    size: p.peer_bandwidth,
                    limit_type: PeerBandwidthLimitType::Hard,
                },
            },
        ),
        ResultView::ResponseMessage(
            DetailsView {
                timestamp: 0,
                stream_id: 0,
                message: MessageView::WindowAcknowledgement { size: p.window_ack_size },
            },
        ),
        ResultView::RaisedEvent(
            EventView::ConnectionRequested { request_id, application_name: app },
        ),
    ]
}

/// What a connect command does: a command object with a string `app`
/// property mints a pending request and emits the connect responses; any
/// other shape is answered with an error response; a full request-id space
/// fails the session.
pub open spec fn spec_handle_connect(
    p: ProcView,
    stream_id: u32,
    transaction_id: u64,
    command_object: Amf0ValueView,
) -> Result<(ProcView, Seq<ResultView>), RtmpProcessorError> {
    match command_object {
        Amf0ValueView::Object(props) => match spec_find_property(props, "app"@) {
            Some(Amf0ValueView::Utf8String(app)) => match spec_next_request_id(p) {
                None => Err(RtmpProcessorError::AllRequestIdsInUse),
                Some(id) => Ok(
                    (
                        ProcView {
                            phase: ProcessorPhase::ConnectionRequested,
                            next_request_id: spec_add_values(id, 1),
                            outstanding_requests: p.outstanding_requests.insert(id, app),
                            ..p
                        },
                        spec_connect_responses(p, id, app),
                    ),
                ),
            },
            Some(_) => Ok((p, seq![spec_error_response(stream_id, transaction_id)])),
            None => Ok((p, seq![spec_error_response(stream_id, transaction_id)])),
        },
        _ => Ok((p, seq![spec_error_response(stream_id, transaction_id)])),
    }
}

/// What a command does: `connect` runs the connect choreography; any other
/// name is answered with an error response and reported as unhandleable.
pub open spec fn spec_handle_command(
    p: ProcView,
    stream_id: u32,
    command_name: Seq<char>,
    transaction_id: u64,
    command_object: Amf0ValueView,
) -> Result<(ProcView, Seq<ResultView>), RtmpProcessorError> {
    if command_name == "connect"@ {
        spec_handle_connect(p, stream_id, transaction_id, command_object)
    } else {
        Ok(
            (
                p,
                seq![
                    spec_error_response(stream_id, transaction_id),
                    ResultView::RaisedEvent(EventView::UnhandleableAmf0Command { command_name }),
                ],
            ),
        )
    }
}

/// What one decoded message does: commands are dispatched by name, a peer
/// SetChunkSize raises the matching event, a WindowAcknowledgement is
/// absorbed, and everything else is passed back as unhandleable.
pub open spec fn spec_handle_one(p: ProcView, d: DetailsView) -> Result<
    (ProcView, Seq<ResultView>),
    RtmpProcessorError,
> {
    match d.message {
        MessageView::Amf0Command {
            command_name,
            transaction_id,
            command_object,
            additional_arguments,
        } => spec_handle_command(p, d.stream_id, command_name, transaction_id, command_object),
        MessageView::SetChunkSize { size } => Ok(
            (
                p,
                seq![
                    ResultView::RaisedEvent(EventView::PeerChunkSizeChanged {
                        new_chunk_size: size,
                    }),
                ],
            ),
        ),
        MessageView::WindowAcknowledgement { size } => Ok((p, Seq::empty())),
        _ => Ok((p, seq![ResultView::UnhandleableMessage(d)])),
    }
}

/// What a batch of messages does: each handled in order, results
/// concatenated, the first failure ending the batch.
pub open spec fn spec_handle_all(p: ProcView, ds: Seq<DetailsView>) -> Result<
    (ProcView, Seq<ResultView>),
    RtmpProcessorError,
>
    decreases ds.len(),
{
    if ds.len() == 0 {
        Ok((p, Seq::empty()))
    } else {
        match spec_handle_one(p, ds[0]) {
            Err(e) => Err(e),
            Ok((p2, out)) => match spec_handle_all(p2, ds.drop_first()) {
                Err(e) => Err(e),
                Ok((pf, rest)) => Ok((pf, out + rest)),
            },
        }
    }
}

/// What asking for a new chunk size emits: the event for the application
/// and the SetChunkSize message to send.
pub open spec fn spec_set_chunk_size_results(new_size: u32) -> Seq<ResultView> {
    seq![
        ResultView::RaisedEvent(EventView::SelfChunkSizeChanged { new_chunk_size: new_size }),
        ResultView::ResponseMessage(
            DetailsView {
                timestamp: 0,
                stream_id: 0,
                message: MessageView::SetChunkSize { size: new_size },
            },
        ),
    ]
}

/// The success command accepting a connect request: `_result` with the
/// server version and capabilities as the command object, and the status
/// properties as the first argument.
pub open spec fn spec_connect_success_response(version: Seq<char>) -> DetailsView {
    DetailsView {
        timestamp: 0,
        stream_id: 0,
        message: MessageView::Amf0Command {
            command_name: "_result"@,
            transaction_id: F64_BITS_ONE,
            command_object: Amf0ValueView::Object(
                seq![
                    Amf0PropertyView { name: "fmsVer"@, value: Amf0ValueView::Utf8String(version) },
                    Amf0PropertyView {
                        name: "capabilities"@,
                        value: Amf0ValueView::Number(F64_BITS_THIRTY_ONE),
                    },
                ],
            ),
            additional_arguments: seq![
                Amf0ValueView::Object(
                    seq![
                        Amf0PropertyView {
                            name: "level"@,
                            value: Amf0ValueView::Utf8String("status"@),
                        },
                        Amf0PropertyView {
                            name: "code"@,
                            value: Amf0ValueView::Utf8String("NetConnection.Connect.Success"@),
                        },
                        Amf0PropertyView {
                            name: "description"@,
                            value: Amf0ValueView::Utf8String("Connection succeeded"@),
                        },
                        Amf0PropertyView {
                            name: "objectEncoding"@,
                            value: Amf0ValueView::Number(F64_BITS_ZERO),
                        },
                    ],
                ),
            ],
        },
    }
}

/// What accepting a request does: the pending request is settled, the
/// application name remembered, and the success command emitted.
pub open spec fn spec_accept_request(p: ProcView, request_id: u32) -> Result<
    (ProcView, Seq<ResultView>),
    RtmpProcessorError,
> {
    if !p.outstanding_requests.contains_key(request_id) {
        Err(RtmpProcessorError::UnknownRequestId)
    } else {
        Ok(
            (
                ProcView {
                    phase: ProcessorPhase::ConnectionAccepted,
                    outstanding_requests: p.outstanding_requests.remove(request_id),
                    application_name: Some(p.outstanding_requests[request_id]),
                    ..p
                },
                seq![ResultView::ResponseMessage(spec_connect_success_response(p.version))],
            ),
        )
    }
}

/// What rejecting a request does: the pending request is forgotten and
/// nothing is emitted.
pub open spec fn spec_reject_request(p: ProcView, request_id: u32) -> Result<
    ProcView,
    RtmpProcessorError,
> {
    if !p.outstanding_requests.contains_key(request_id) {
        Err(RtmpProcessorError::UnknownRequestId)
    } else {
        Ok(ProcView { outstanding_requests: p.outstanding_requests.remove(request_id), ..p })
    }
}

/// A request awaiting the application's verdict.
enum OutstandingRequest {
    Connection { app: String },
}

/// The application name a pending request asked for.
spec fn request_app(r: OutstandingRequest) -> Seq<char> {
    match r {
        OutstandingRequest::Connection { app } => app@,
    }
}

/// Drives the connect choreography of one session over decoded messages.
pub struct RtmpProcessor {
    config: RtmpProcessorConfig,
    current_state: ProcessorPhase,
    next_request_id: u32,
    outstanding_requests: std::collections::HashMap<u32, OutstandingRequest>,
    application_name: Option<String>,
}

impl View for RtmpProcessor {
    type V = ProcView;

    closed spec fn view(&self) -> ProcView {
        ProcView {
            version: self.config.version@,
            peer_bandwidth: self.config.peer_bandwidth,
            window_ack_size: self.config.window_ack_size,
            phase: self.current_state,
            next_request_id: self.next_request_id,
            outstanding_requests: self.outstanding_requests@.map_values(
                |r: OutstandingRequest| request_app(r),
            ),
            application_name: crate::metadata::option_string_view(self.application_name),
        }
    }
}

impl RtmpProcessor {
    /// A processor before any message has arrived.
    pub fn new(config: RtmpProcessorConfig) -> (r: RtmpProcessor)
        ensures
            r@ == (ProcView {
                version: config.version@,
                peer_bandwidth: config.peer_bandwidth,
                window_ack_size: config.window_ack_size,
                phase: ProcessorPhase::Started,
                next_request_id: 0,
                outstanding_requests: Map::empty(),
                application_name: None,
            }),
    {
        let ghost expected_version = config.version@;
        let r = RtmpProcessor {
            config,
            current_state: ProcessorPhase::Started,
            next_request_id: 0,
            outstanding_requests: std::collections::HashMap::new(),
            application_name: None,
        };
        proof {
            assert(r@.outstanding_requests =~= Map::<u32, Seq<char>>::empty());
            assert(r@ =~~= (ProcView {
                version: expected_version,
                peer_bandwidth: r.config.peer_bandwidth,
                window_ack_size: r.config.window_ack_size,
                phase: ProcessorPhase::Started,
                next_request_id: 0,
                outstanding_requests: Map::empty(),
                application_name: None,
            }));
        }
        r
    }

    /// Handles a batch of decoded messages in order, exactly as
    /// `spec_handle_all` says, returning the responses and events they
    /// produce.  Fails only when a connect request finds every request id in
    /// use.
    pub fn handle(&mut self, messages: Vec<RtmpMessageDetails>) -> (r: Result<
        Vec<ProcessorResult>,
        RtmpProcessorError,
    >)
        ensures
            match spec_handle_all(old(self)@, details_views(messages@)) {
                Ok((pf, out)) => r matches Ok(v) && final(self)@ == pf && results_view(v@) == out,
                Err(e) => r == Err::<Vec<ProcessorResult>, RtmpProcessorError>(e),
            },
    {
        let ghost p0 = self@;
        let ghost ds0 = details_views(messages@);
        let mut queue = messages;
        let mut all_results: Vec<ProcessorResult> = Vec::new();
        proof {
            assert(results_view(all_results@) =~= Seq::<ResultView>::empty());
        }
        while queue.len() > 0
            invariant
                p0 == old(self)@,
                ds0 == details_views(messages@),
                match spec_handle_all(self@, details_views(queue@)) {
                    Ok((pf, out)) => spec_handle_all(p0, ds0) == Ok::<_, RtmpProcessorError>(
                        (pf, results_view(all_results@) + out),
                    ),
                    Err(e) => spec_handle_all(p0, ds0) == Err::<(ProcView, Seq<ResultView>),
                        RtmpProcessorError,
                    >(e),
                },
            decreases queue.len(),
        {
            let ghost p_pre = self@;
            let ghost queue_pre = queue@;
            let ghost results_pre = all_results@;
            let details = queue.remove(0);
            proof {
                lemma_details_views_index(queue_pre);
                lemma_details_views_index(queue@);
                assert(queue@ =~= queue_pre.drop_first());
                assert(details_views(queue@) =~= details_views(queue_pre).drop_first());
            }
            let ghost dv = details@;
            let mut message_results = match details.message {
                RtmpMessage::Amf0Command {
                    command_name,
                    transaction_id,
                    command_object,
                    additional_arguments,
                } => {
                    let stream_id = details.stream_id;
                    match self.handle_amf0_command(
                        stream_id,
                        command_name,
                        transaction_id,
                        command_object,
                        additional_arguments,
                    ) {
                        Ok(v) => v,
                        Err(e) => {
                            return Err(e);
                        },
                    }
                },
                RtmpMessage::SetChunkSize { size } => self.handle_peer_chunk_size(size),
                RtmpMessage::WindowAcknowledgement { size } => self.handle_peer_window_ack(size),
                _ => {
                    let one = ProcessorResult::UnhandleableMessage(details);
                    let ghost ov = one@;
                    let v = vec![one];
                    proof {
                        lemma_results_view_index(v@);
                        assert(results_view(v@) =~= seq![ov]);
                    }
                    v
                },
            };
            let ghost step_out = results_view(message_results@);
            proof {
                lemma_results_view_concat(all_results@, message_results@);
            }
            all_results.append(&mut message_results);
            proof {
                assert(results_view(all_results@) =~= results_view(results_pre) + step_out);
                match spec_handle_all(self@, details_views(queue@)) {
                    Ok((pf, out)) => {
                        assert(results_view(results_pre) + (step_out + out) =~= results_view(
                            all_results@,
                        ) + out);
                    },
                    Err(_) => {},
                }
            }
        }
        proof {
            assert(details_views(queue@) =~= Seq::<DetailsView>::empty());
            assert(results_view(all_results@) + Seq::<ResultView>::empty() =~= results_view(
                all_results@,
            ));
        }
        Ok(all_results)
    }

    /// Asks for a new maximum chunk size for sent messages: the application
    /// learns of it by event and the peer by a SetChunkSize message.
    pub fn set_chunk_size(&mut self, new_size: u32) -> (r: Vec<ProcessorResult>)
        ensures
            final(self)@ == old(self)@,
            results_view(r@) == spec_set_chunk_size_results(new_size),
    {
        let results = vec![
            ProcessorResult::RaisedEvent(
                ProcessorEvent::SelfChunkSizeChanged { new_chunk_size: new_size },
            ),
            ProcessorResult::ResponseMessage(
                RtmpMessageDetails {
                    rtmp_timestamp: RtmpTimestamp::new(0),
                    stream_id: 0,
                    message: RtmpMessage::SetChunkSize { size: new_size },
                },
            ),
        ];
        proof {
            lemma_results_view_index(results@);
            assert(results_view(results@) =~= spec_set_chunk_size_results(new_size));
        }
        results
    }

    /// Accepts a request the processor raised earlier, exactly as
    /// `spec_accept_request` says; an unknown request id is refused.
    pub fn accept_request(&mut self, request_id: u32) -> (r: Result<
        Vec<ProcessorResult>,
        RtmpProcessorError,
    >)
        ensures
            match spec_accept_request(old(self)@, request_id) {
                Ok((pf, out)) => r matches Ok(v) && final(self)@ == pf && results_view(v@) == out,
                Err(e) => r == Err::<Vec<ProcessorResult>, RtmpProcessorError>(e) && final(self)@
                    == old(self)@,
            },
    {
        let request = match self.outstanding_requests.remove(&request_id) {
            Some(request) => request,
            None => {
                proof {
                    assert(self@ =~~= old(self)@);
                }
                return Err(RtmpProcessorError::UnknownRequestId);
            },
        };
        proof {
            assert(self@.outstanding_requests =~= old(self)@.outstanding_requests.remove(
                request_id,
            ));
        }
        match request {
            OutstandingRequest::Connection { app } => Ok(accept_connection_request(self, app)),
        }
    }

    /// Rejects a request the processor raised earlier: the pending request
    /// is forgotten and nothing needs to be sent.  An unknown request id is
    /// refused.
    pub fn reject_request(&mut self, request_id: u32) -> (r: Result<
        Vec<ProcessorResult>,
        RtmpProcessorError,
    >)
        ensures
            match spec_reject_request(old(self)@, request_id) {
                Ok(pf) => r matches Ok(v) && final(self)@ == pf && v@ == Seq::<
                    ProcessorResult,
                >::empty(),
                Err(e) => r == Err::<Vec<ProcessorResult>, RtmpProcessorError>(e) && final(self)@
                    == old(self)@,
            },
    {
        match self.outstanding_requests.remove(&request_id) {
            Some(_) => {
                proof {
                    assert(self@.outstanding_requests =~= old(self)@.outstanding_requests.remove(
                        request_id,
                    ));
                    assert(self@ =~~= (ProcView {
                        outstanding_requests: old(self)@.outstanding_requests.remove(request_id),
                        ..old(self)@
                    }));
                }
                Ok(Vec::new())
            },
            None => {
                proof {
                    assert(self@ =~~= old(self)@);
                }
                Err(RtmpProcessorError::UnknownRequestId)
            },
        }
    }

    /// Raises the peer-chunk-size event for a SetChunkSize the peer sent.
    fn handle_peer_chunk_size(&mut self, size: u32) -> (r: Vec<ProcessorResult>)
        ensures
            final(self)@ == old(self)@,
            results_view(r@) == seq![
                ResultView::RaisedEvent(EventView::PeerChunkSizeChanged { new_chunk_size: size }),
            ],
    {
        let results = vec![
            ProcessorResult::RaisedEvent(ProcessorEvent::PeerChunkSizeChanged {
                new_chunk_size: size,
            }),
        ];
        proof {
            lemma_results_view_index(results@);
            assert(results_view(results@) =~= seq![
                ResultView::RaisedEvent(EventView::PeerChunkSizeChanged { new_chunk_size: size }),
            ]);
        }
        results
    }

    /// Absorbs a WindowAcknowledgement from the peer; nothing tracks the
    /// acknowledged byte counts yet.
    fn handle_peer_window_ack(&mut self, _size: u32) -> (r: Vec<ProcessorResult>)
        ensures
            final(self)@ == old(self)@,
            results_view(r@) == Seq::<ResultView>::empty(),
    {
        let results: Vec<ProcessorResult> = Vec::new();
        proof {
            assert(results_view(results@) =~= Seq::<ResultView>::empty());
        }
        results
    }

    /// Dispatches a command by name, exactly as `spec_handle_command` says.
    fn handle_amf0_command(
        &mut self,
        stream_id: u32,
        command_name: String,
        transaction_id: u64,
        command_object: Amf0Value,
        _additional_arguments: Vec<Amf0Value>,
    ) -> (r: Result<Vec<ProcessorResult>, RtmpProcessorError>)
        ensures
            match spec_handle_command(
                old(self)@,
                stream_id,
                command_name@,
                transaction_id,
                command_object@,
            ) {
                Ok((pf, out)) => r matches Ok(v) && final(self)@ == pf && results_view(v@) == out,
                Err(e) => r == Err::<Vec<ProcessorResult>, RtmpProcessorError>(e),
            },
    {
        let connect_name = String::from_str("connect");
        if command_name == connect_name {
            handle_connect_amf0_command(self, stream_id, transaction_id, command_object)
        } else {
            Ok(handle_unknown_amf0_command(self, stream_id, command_name, transaction_id))
        }
    }

    /// Mints the next free request id, exactly as `spec_next_request_id`
    /// says, and moves the wrapping counter past it.  Fails only when all
    /// 2^32 ids are outstanding.
    fn get_next_request_id(&mut self) -> (r: Result<u32, RtmpProcessorError>)
        ensures
            match spec_next_request_id(old(self)@) {
                Some(id) => r == Ok::<u32, RtmpProcessorError>(id) && final(self)@ == (ProcView {
                    next_request_id: spec_add_values(id, 1),
                    ..old(self)@
                }),
                None => r == Err::<u32, RtmpProcessorError>(
                    RtmpProcessorError::AllRequestIdsInUse,
                ) && final(self)@ == old(self)@,
            },
    {
        let ghost occupied = self@.outstanding_requests;
        let start = self.next_request_id;
        let last_id = start.wrapping_sub(1);
        let mut id = start;
        proof {
            lemma_wrap_distance_initial(start, last_id, crate::timestamp::spec_sub_values(last_id, start));
        }
        loop
            invariant
                *self == *old(self),
                occupied == self@.outstanding_requests,
                start == old(self)@.next_request_id,
                last_id == start.wrapping_sub(1),
                spec_free_request_id(occupied, id, distance(last_id, id)) == spec_free_request_id(
                    occupied,
                    start,
                    0xFFFFFFFF as nat,
                ),
            ensures
                *self == *old(self),
                !occupied.contains_key(id),
                spec_free_request_id(occupied, id, distance(last_id, id)) == spec_free_request_id(
                    occupied,
                    start,
                    0xFFFFFFFF as nat,
                ),
            decreases distance(last_id, id),
        {
            if !self.outstanding_requests.contains_key(&id) {
                break ;
            }
            proof {
                lemma_wrap_distance_step(
                    last_id,
                    id,
                    crate::timestamp::spec_sub_values(last_id, id),
                    crate::timestamp::spec_sub_values(last_id, spec_add_values(id, 1)),
                );
            }
            if id == last_id {
                return Err(RtmpProcessorError::AllRequestIdsInUse);
            }
            id = id.wrapping_add(1);
        }
        self.next_request_id = id.wrapping_add(1);
        proof {
            assert(self@ =~~= (ProcView {
                next_request_id: spec_add_values(id, 1),
                ..old(self)@
            }));
        }
        Ok(id)
    }
}

/// The wrapped difference used by the request id search: how many candidate
/// ids remain before the search returns to where it started.
pub open spec fn distance(last_id: u32, id: u32) -> nat {
    crate::timestamp::spec_sub_values(last_id, id) as nat
}

/// The search for a free id starts a full cycle away from the id just before
/// its starting point.
proof fn lemma_wrap_distance_initial(start: u32, last_id: u32, d: u32)
    by (bit_vector)
    requires
        last_id == ((start - 1) % 0x100000000int) as u32,
        d == ((last_id - start) % 0x100000000int) as u32,
    ensures
        d == 0xFFFFFFFF,
{
}

/// Each candidate tried brings the search one id closer to where it started:
/// at the last id the distance is spent, anywhere else it is positive and
/// drops by one.
proof fn lemma_wrap_distance_step(last_id: u32, id: u32, d: u32, d_next: u32)
    by (bit_vector)
    requires
        d == ((last_id - id) % 0x100000000int) as u32,
        d_next == ((last_id - (((id + 1) % 0x100000000int) as u32)) % 0x100000000int) as u32,
    ensures
        id == last_id ==> d == 0,
        id != last_id ==> d > 0 && d_next == d - 1,
{
}

/// Answers a command the processor does not know: an error response for the
/// peer and an event telling the application what was asked.
fn handle_unknown_amf0_command(
    processor: &mut RtmpProcessor,
    stream_id: u32,
    command_name: String,
    transaction_id: u64,
) -> (r: Vec<ProcessorResult>)
    ensures
        final(processor)@ == old(processor)@,
        results_view(r@) == seq![
            spec_error_response(stream_id, transaction_id),
            ResultView::RaisedEvent(EventView::UnhandleableAmf0Command {
                command_name: command_name@,
            }),
        ],
{
    let ghost name_view = command_name@;
    let error = get_amf0_error_response(stream_id, transaction_id, Amf0Value::Null);
    let results = vec![
        error,
        ProcessorResult::RaisedEvent(ProcessorEvent::UnhandleableAmf0Command { command_name }),
    ];
    proof {
        lemma_results_view_index(results@);
        assert(results_view(results@) =~= seq![
            spec_error_response(stream_id, transaction_id),
            ResultView::RaisedEvent(EventView::UnhandleableAmf0Command {
                command_name: name_view,
            }),
        ]);
    }
    results
}

/// Runs a connect command, exactly as `spec_handle_connect` says.
fn handle_connect_amf0_command(
    processor: &mut RtmpProcessor,
    stream_id: u32,
    transaction_id: u64,
    command_object: Amf0Value,
) -> (r: Result<Vec<ProcessorResult>, RtmpProcessorError>)
    ensures
        match spec_handle_connect(old(processor)@, stream_id, transaction_id, command_object@) {
            Ok((pf, out)) => r matches Ok(v) && final(processor)@ == pf && results_view(v@) == out,
            Err(e) => r == Err::<Vec<ProcessorResult>, RtmpProcessorError>(e),
        },
{
    let properties = match &command_object {
        Amf0Value::Object(object) => object,
        _ => {
            let results = vec![
                get_amf0_error_response(stream_id, transaction_id, Amf0Value::Null),
            ];
            proof {
                lemma_results_view_index(results@);
                assert(results_view(results@) =~= seq![
                    spec_error_response(stream_id, transaction_id),
                ]);
            }
            return Ok(results);
        },
    };
    let app_key = String::from_str("app");
    let app_name: String = match properties.get(&app_key) {
        Some(value) => match value {
            Amf0Value::Utf8String(name) => name.clone(),
            _ => {
                let results = vec![
                    get_amf0_error_response(stream_id, transaction_id, Amf0Value::Null),
                ];
                proof {
                    lemma_results_view_index(results@);
                    assert(results_view(results@) =~= seq![
                        spec_error_response(stream_id, transaction_id),
                    ]);
                }
                return Ok(results);
            },
        },
        None => {
            let results = vec![
                get_amf0_error_response(stream_id, transaction_id, Amf0Value::Null),
            ];
            proof {
                lemma_results_view_index(results@);
                assert(results_view(results@) =~= seq![
                    spec_error_response(stream_id, transaction_id),
                ]);
            }
            return Ok(results);
        },
    };
    let ghost p_before = processor@;
    let request_id = match processor.get_next_request_id() {
        Ok(id) => id,
        Err(e) => {
            return Err(e);
        },
    };
    let ghost app_view = app_name@;
    processor.outstanding_requests.insert(
        request_id,
        OutstandingRequest::Connection { app: app_name.clone() },
    );
    processor.current_state = ProcessorPhase::ConnectionRequested;
    proof {
        assert(processor@.outstanding_requests =~= p_before.outstanding_requests.insert(
            request_id,
            app_view,
        ));
    }
    let results = vec![
        ProcessorResult::ResponseMessage(
            RtmpMessageDetails {
                rtmp_timestamp: RtmpTimestamp::new(0),
                stream_id: 0,
                message: RtmpMessage::SetPeerBandwidth {
                    size: processor.config.peer_bandwidth,
                    limit_type: PeerBandwidthLimitType::Hard,
                },
            },
        ),
        ProcessorResult::ResponseMessage(
            RtmpMessageDetails {
                rtmp_timestamp: RtmpTimestamp::new(0),
                stream_id: 0,
                message: RtmpMessage::WindowAcknowledgement {
                    size: processor.config.window_ack_size,
                },
            },
        ),
        ProcessorResult::RaisedEvent(
            ProcessorEvent::ConnectionRequested { request_id, application_name: app_name },
        ),
    ];
    proof {
        lemma_results_view_index(results@);
        assert(results_view(results@) =~= spec_connect_responses(p_before, request_id, app_view));
        match spec_handle_connect(p_before, stream_id, transaction_id, command_object@) {
            Ok((pf, out)) => {
                assert(processor@ =~~= pf);
            },
            Err(_) => {},
        }
    }
    Ok(results)
}

/// Emits the success command that accepts a connection, exactly the message
/// `spec_connect_success_response` describes, and remembers the application.
fn accept_connection_request(processor: &mut RtmpProcessor, app_name: String) -> (r: Vec<
    ProcessorResult,
>)
    ensures
        final(processor)@ == (ProcView {
            phase: ProcessorPhase::ConnectionAccepted,
            application_name: Some(app_name@),
            ..old(processor)@
        }),
        results_view(r@) == seq![
            ResultView::ResponseMessage(spec_connect_success_response(old(processor)@.version)),
        ],
{
    processor.current_state = ProcessorPhase::ConnectionAccepted;
    let ghost app_view = app_name@;
    processor.application_name = Some(app_name);
    let mut command_properties = Amf0Object::new();
    command_properties.insert(
        "fmsVer".to_owned(),
        Amf0Value::Utf8String(processor.config.version.clone()),
    );
    command_properties.insert("capabilities".to_owned(), Amf0Value::Number(F64_BITS_THIRTY_ONE));
    let mut information_properties = Amf0Object::new();
    information_properties.insert(
        "level".to_owned(),
        Amf0Value::Utf8String("status".to_owned()),
    );
    information_properties.insert(
        "code".to_owned(),
        Amf0Value::Utf8String("NetConnection.Connect.Success".to_owned()),
    );
    information_properties.insert(
        "description".to_owned(),
        Amf0Value::Utf8String("Connection succeeded".to_owned()),
    );
    information_properties.insert("objectEncoding".to_owned(), Amf0Value::Number(F64_BITS_ZERO));
    proof {
        assert(command_properties@ =~~= seq![
            Amf0PropertyView {
                name: "fmsVer"@,
                value: Amf0ValueView::Utf8String(old(processor)@.version),
            },
            Amf0PropertyView {
                name: "capabilities"@,
                value: Amf0ValueView::Number(F64_BITS_THIRTY_ONE),
            },
        ]);
        assert(information_properties@ =~~= seq![
            Amf0PropertyView { name: "level"@, value: Amf0ValueView::Utf8String("status"@) },
            Amf0PropertyView {
                name: "code"@,
                value: Amf0ValueView::Utf8String("NetConnection.Connect.Success"@),
            },
            Amf0PropertyView {
                name: "description"@,
                value: Amf0ValueView::Utf8String("Connection succeeded"@),
            },
            Amf0PropertyView {
                name: "objectEncoding"@,
                value: Amf0ValueView::Number(F64_BITS_ZERO),
            },
        ]);
    }
    let ghost info_view = information_properties@;
    let ghost command_view = command_properties@;
    let arguments = vec![Amf0Value::Object(information_properties)];
    proof {
        lemma_values_view_index(arguments@);
        assert(values_view(arguments@) =~~= seq![Amf0ValueView::Object(info_view)]);
    }
    let details = RtmpMessageDetails {
        rtmp_timestamp: RtmpTimestamp::new(0),
        stream_id: 0,
        message: RtmpMessage::Amf0Command {
            command_name: "_result".to_owned(),
            transaction_id: F64_BITS_ONE,
            command_object: Amf0Value::Object(command_properties),
            additional_arguments: arguments,
        },
    };
    let ghost expected = spec_connect_success_response(old(processor)@.version);
    proof {
        assert(details@ =~~= expected);
        assert(processor@ =~~= (ProcView {
            phase: ProcessorPhase::ConnectionAccepted,
            application_name: Some(app_view),
            ..old(processor)@
        }));
    }
    let results = vec![ProcessorResult::ResponseMessage(details)];
    proof {
        lemma_results_view_index(results@);
        assert(results_view(results@) =~= seq![ResultView::ResponseMessage(expected)]);
    }
    results
}

/// The `_error` command answering a command the processor cannot honour,
/// carrying the given response data.
fn get_amf0_error_response(stream_id: u32, transaction_id: u64, response_data: Amf0Value) -> (r:
    ProcessorResult)
    requires
        response_data is Null,
    ensures
        r@ == spec_error_response(stream_id, transaction_id),
{
    let ghost empty_args = Seq::<Amf0ValueView>::empty();
    let arguments: Vec<Amf0Value> = Vec::new();
    proof {
        lemma_values_view_index(arguments@);
        assert(values_view(arguments@) =~= empty_args);
    }
    ProcessorResult::ResponseMessage(
        RtmpMessageDetails {
            rtmp_timestamp: RtmpTimestamp::new(0),
            stream_id,
            message: RtmpMessage::Amf0Command {
                command_name: "_error".to_owned(),
                transaction_id,
                command_object: response_data,
                additional_arguments: arguments,
            },
        },
    )
}

} // verus!
