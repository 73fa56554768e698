//! The chunk deserializer: a resumable state machine turning an arbitrarily
//! fragmented byte stream into complete message payloads.
//!
//! Each chunk starts with a basic header giving the format and chunk stream
//! id; the remaining header fields depend on the format, missing ones being
//! inherited from the cached previous header of the same chunk stream.  The
//! payload of a message longer than the peer's maximum chunk size arrives
//! split over several chunks and is reassembled here.
//!
//! `process_bytes` consumes as many whole parsing steps as the buffered bytes
//! allow and leaves the rest buffered, so input may be cut at any byte
//! boundary.

use vstd::prelude::*;

use crate::chunk_header::{ChunkHeader, ChunkHeaderFormat};
use crate::message_payload::{MessagePayload, PayloadView};
use crate::timestamp::{spec_add_values, spec_sub_values};
use crate::utils::{be_u24_of, be_u32_of, le_u32_of, read_u24_be, read_u32_be, read_u32_le};

verus! {

broadcast use vstd::std_specs::hash::group_hash_axioms;

/// The timestamp and delta value that announces an extended timestamp field.
pub const MAX_INITIAL_TIMESTAMP: u32 = 16777215;

/// Why a byte stream was rejected.
#[derive(Eq, PartialEq, Structural, Debug, Copy, Clone)]
pub enum DeserializationError {
    /// A chunk relied on a previous header of its chunk stream, but none was
    /// cached: the peer compressed a header it never sent in full.
    NoPreviousChunkOnStream(u32),
}

/// What one parsing step achieved.
#[derive(Eq, PartialEq, Structural, Debug, Copy, Clone)]
pub enum ParseResult {
    NotEnoughBytes,
    Success,
}

/// Which part of a chunk the deserializer expects next.
#[derive(Eq, PartialEq, Structural, Debug, Copy, Clone)]
pub enum ParseStage {
    Csid,
    InitialTimestamp,
    MessageLength,
    MessageTypeId,
    MessageStreamId,
    ExtendedTimestamp,
    MessagePayload,
}

/// The mathematical state of a deserializer.
#[verifier::ext_equal]
pub struct DeserState {
    /// The cached previous header of each chunk stream.
    pub headers: Map<u32, ChunkHeader>,
    /// The peer's maximum chunk size.
    pub max_chunk_size: u32,
    /// Bytes received and not yet consumed.
    pub buffer: Seq<u8>,
    /// The header of the chunk being read, as far as it is assembled.
    pub current: ChunkHeader,
    /// The format of the chunk being read.
    pub format: ChunkHeaderFormat,
    /// The next part expected.
    pub stage: ParseStage,
    /// The partially reassembled message payload.
    pub payload: PayloadView,
}

/// What one spec-level step of the machine does.
#[verifier::ext_equal]
pub enum StepOutcome {
    /// The buffer holds too few bytes for the expected part.
    NeedMore,
    /// The machine advanced, perhaps completing a payload.
    Advanced { next: DeserState, emitted: Option<PayloadView> },
    /// The stream is invalid: a compressed header without a cached previous
    /// header on its chunk stream.
    Rejected { csid: u32 },
}

/// What running the machine to exhaustion does.
#[verifier::ext_equal]
pub enum RunOutcome {
    /// The machine stopped waiting for more bytes.
    Stopped { state: DeserState, emitted: Seq<PayloadView> },
    /// The stream is invalid.
    Rejected { csid: u32 },
}

/// The format encoded in the top two bits of a basic header byte.
pub open spec fn spec_format_of(byte: u8) -> ChunkHeaderFormat {
    if byte & 0xC0 == 0x00 {
        ChunkHeaderFormat::Full
    } else if byte & 0xC0 == 0x40 {
        ChunkHeaderFormat::TimeDeltaWithoutMessageStreamId
    } else if byte & 0xC0 == 0x80 {
        ChunkHeaderFormat::TimeDeltaOnly
    } else {
        ChunkHeaderFormat::Empty
    }
}

/// The chunk stream id at the start of the buffer, with the bytes it takes:
/// the low six bits of the first byte, or an escape to a 2- or 3-byte form.
/// `None` when the buffer holds too few bytes to tell.
pub open spec fn spec_csid_of(b: Seq<u8>) -> Option<(u32, int)> {
    if b.len() < 1 {
        None
    } else if b[0] & 0x3F == 0 {
        if b.len() < 2 {
            None
        } else {
            Some(((b[1] + 64) as u32, 2))
        }
    } else if b[0] & 0x3F == 1 {
        if b.len() < 3 {
            None
        } else {
            Some(((b[2] * 0x100 + b[1] + 64) as u32, 3))
        }
    } else {
        Some(((b[0] & 0x3F) as u32, 1))
    }
}

/// Reads the basic header: format bits and chunk stream id.  A Full chunk
/// starts from a fresh header; any other format takes the cached previous
/// header of its chunk stream out of the cache, or fails if there is none.
pub open spec fn spec_step_csid(s: DeserState) -> StepOutcome {
    match spec_csid_of(s.buffer) {
        None => StepOutcome::NeedMore,
        Some((csid, consumed)) => {
            let format = spec_format_of(s.buffer[0]);
            if format == ChunkHeaderFormat::Full {
                StepOutcome::Advanced {
                    next: DeserState {
                        buffer: s.buffer.skip(consumed),
                        current: ChunkHeader { chunk_stream_id: csid, ..ChunkHeader::spec_new() },
                        format: format,
                        stage: ParseStage::InitialTimestamp,
                        ..s
                    },
                    emitted: None,
                }
            } else if s.headers.contains_key(csid) {
                StepOutcome::Advanced {
                    next: DeserState {
                        buffer: s.buffer.skip(consumed),
                        headers: s.headers.remove(csid),
                        current: s.headers[csid],
                        format: format,
                        stage: ParseStage::InitialTimestamp,
                        ..s
                    },
                    emitted: None,
                }
            } else {
                StepOutcome::Rejected { csid: csid }
            }
        },
    }
}

/// Reads the 3-byte timestamp field.  For a Full header it is the absolute
/// timestamp; for the delta formats it is a delta added to the previous
/// timestamp; an Empty header reads nothing and reuses the previous delta.
pub open spec fn spec_step_initial_timestamp(s: DeserState) -> StepOutcome {
    if s.format == ChunkHeaderFormat::Empty {
        StepOutcome::Advanced {
            next: DeserState {
                current: ChunkHeader {
                    timestamp: crate::timestamp::RtmpTimestamp {
                        value: spec_add_values(s.current.timestamp.value, s.current.timestamp_delta),
                    },
                    ..s.current
                },
                stage: ParseStage::MessageLength,
                ..s
            },
            emitted: None,
        }
    } else if s.buffer.len() < 3 {
        StepOutcome::NeedMore
    } else {
        let wire = be_u24_of(s.buffer.subrange(0, 3)) as u32;
        let current = if s.format == ChunkHeaderFormat::Full {
            ChunkHeader { timestamp: crate::timestamp::RtmpTimestamp { value: wire }, ..s.current }
        } else {
            ChunkHeader {
                timestamp: crate::timestamp::RtmpTimestamp {
                    value: spec_add_values(s.current.timestamp.value, wire),
                },
                timestamp_delta: wire,
                ..s.current
            }
        };
        StepOutcome::Advanced {
            next: DeserState {
                buffer: s.buffer.skip(3),
                current: current,
                stage: ParseStage::MessageLength,
                ..s
            },
            emitted: None,
        }
    }
}

/// Reads the 3-byte message length, absent from the two shortest formats.
pub open spec fn spec_step_message_length(s: DeserState) -> StepOutcome {
    if s.format == ChunkHeaderFormat::TimeDeltaOnly || s.format == ChunkHeaderFormat::Empty {
        StepOutcome::Advanced {
            next: DeserState { stage: ParseStage::MessageTypeId, ..s },
            emitted: None,
        }
    } else if s.buffer.len() < 3 {
        StepOutcome::NeedMore
    } else {
        StepOutcome::Advanced {
            next: DeserState {
                buffer: s.buffer.skip(3),
                current: ChunkHeader {
                    message_length: be_u24_of(s.buffer.subrange(0, 3)) as u32,
                    ..s.current
                },
                stage: ParseStage::MessageTypeId,
                ..s
            },
            emitted: None,
        }
    }
}

/// Reads the 1-byte message type id, absent from the two shortest formats.
pub open spec fn spec_step_message_type_id(s: DeserState) -> StepOutcome {
    if s.format == ChunkHeaderFormat::TimeDeltaOnly || s.format == ChunkHeaderFormat::Empty {
        StepOutcome::Advanced {
            next: DeserState { stage: ParseStage::MessageStreamId, ..s },
            emitted: None,
        }
    } else if s.buffer.len() < 1 {
        StepOutcome::NeedMore
    } else {
        StepOutcome::Advanced {
            next: DeserState {
                buffer: s.buffer.skip(1),
                current: ChunkHeader { message_type_id: s.buffer[0], ..s.current },
                stage: ParseStage::MessageStreamId,
                ..s
            },
            emitted: None,
        }
    }
}

/// Reads the 4-byte little-endian message stream id, present only in a Full
/// header.
pub open spec fn spec_step_message_stream_id(s: DeserState) -> StepOutcome {
    if s.format != ChunkHeaderFormat::Full {
        StepOutcome::Advanced {
            next: DeserState { stage: ParseStage::ExtendedTimestamp, ..s },
            emitted: None,
        }
    } else if s.buffer.len() < 4 {
        StepOutcome::NeedMore
    } else {
        StepOutcome::Advanced {
            next: DeserState {
                buffer: s.buffer.skip(4),
                current: ChunkHeader {
                    message_stream_id: le_u32_of(s.buffer.subrange(0, 4)) as u32,
                    ..s.current
                },
                stage: ParseStage::ExtendedTimestamp,
                ..s
            },
            emitted: None,
        }
    }
}

/// Reads the 4-byte extended timestamp, present exactly when the 3-byte
/// timestamp or delta field read earlier was its maximum value.  The extended
/// value replaces the 3-byte one: a Full header's timestamp is overwritten,
/// a delta header's delta is replaced and the timestamp recomputed from it.
/// An Empty header carries no timestamp field at all.
pub open spec fn spec_step_extended_timestamp(s: DeserState) -> StepOutcome {
    if s.format == ChunkHeaderFormat::Empty {
        StepOutcome::Advanced {
            next: DeserState { stage: ParseStage::MessagePayload, ..s },
            emitted: None,
        }
    } else if s.format == ChunkHeaderFormat::Full {
        if s.current.timestamp.value != MAX_INITIAL_TIMESTAMP {
            StepOutcome::Advanced {
                next: DeserState { stage: ParseStage::MessagePayload, ..s },
                emitted: None,
            }
        } else if s.buffer.len() < 4 {
            StepOutcome::NeedMore
        } else {
            StepOutcome::Advanced {
                next: DeserState {
                    buffer: s.buffer.skip(4),
                    current: ChunkHeader {
                        timestamp: crate::timestamp::RtmpTimestamp {
                            value: be_u32_of(s.buffer.subrange(0, 4)) as u32,
                        },
                        ..s.current
                    },
                    stage: ParseStage::MessagePayload,
                    ..s
                },
                emitted: None,
            }
        }
    } else {
        if s.current.timestamp_delta != MAX_INITIAL_TIMESTAMP {
            StepOutcome::Advanced {
                next: DeserState { stage: ParseStage::MessagePayload, ..s },
                emitted: None,
            }
        } else if s.buffer.len() < 4 {
            StepOutcome::NeedMore
        } else {
            let extended = be_u32_of(s.buffer.subrange(0, 4)) as u32;
            StepOutcome::Advanced {
                next: DeserState {
                    buffer: s.buffer.skip(4),
                    current: ChunkHeader {
                        timestamp: crate::timestamp::RtmpTimestamp {
                            value: spec_add_values(
                                spec_sub_values(s.current.timestamp.value, MAX_INITIAL_TIMESTAMP),
                                extended,
                            ),
                        },
                        timestamp_delta: extended,
                        ..s.current
                    },
                    stage: ParseStage::MessagePayload,
                    ..s
                },
                emitted: None,
            }
        }
    }
}

/// How many payload bytes the current chunk carries: the rest of the message,
/// capped by the maximum chunk size.
pub open spec fn spec_chunk_payload_len(s: DeserState) -> int {
    let length = s.current.message_length as int;
    let already = s.payload.data.len() as int;
    if length > s.max_chunk_size {
        let remaining = if length > already {
            length - already
        } else {
            0
        };
        if remaining < s.max_chunk_size {
            remaining
        } else {
            s.max_chunk_size as int
        }
    } else {
        length
    }
}

/// Consumes the chunk's slice of the payload.  When the reassembled data
/// reaches the message length the payload is complete and emitted.  Either
/// way the chunk's header becomes the cached previous header of its chunk
/// stream and the machine returns to reading a basic header.
pub open spec fn spec_step_message_payload(s: DeserState) -> StepOutcome {
    let to_read = spec_chunk_payload_len(s);
    if s.buffer.len() < to_read {
        StepOutcome::NeedMore
    } else {
        let data = s.payload.data + s.buffer.subrange(0, to_read);
        let assembled = PayloadView {
            timestamp: s.current.timestamp.value,
            type_id: s.current.message_type_id,
            stream_id: s.current.message_stream_id,
            data: data,
        };
        let complete = data.len() == s.current.message_length;
        StepOutcome::Advanced {
            next: DeserState {
                buffer: s.buffer.skip(to_read),
                headers: s.headers.insert(s.current.chunk_stream_id, s.current),
                current: ChunkHeader::spec_new(),
                stage: ParseStage::Csid,
                payload: if complete {
                    PayloadView { timestamp: 0, type_id: 0, stream_id: 0, data: Seq::empty() }
                } else {
                    assembled
                },
                ..s
            },
            emitted: if complete {
                Some(assembled)
            } else {
                None
            },
        }
    }
}

/// One step of the machine: whatever the stage at hand asks for.
#[verifier::opaque]
pub open spec fn spec_step(s: DeserState) -> StepOutcome {
    match s.stage {
        ParseStage::Csid => spec_step_csid(s),
        ParseStage::InitialTimestamp => spec_step_initial_timestamp(s),
        ParseStage::MessageLength => spec_step_message_length(s),
        ParseStage::MessageTypeId => spec_step_message_type_id(s),
        ParseStage::MessageStreamId => spec_step_message_stream_id(s),
        ParseStage::ExtendedTimestamp => spec_step_extended_timestamp(s),
        ParseStage::MessagePayload => spec_step_message_payload(s),
    }
}

/// The termination measure of a run: a step either consumes bytes or moves to
/// a stage of lower rank without consuming any.
pub open spec fn stage_rank(stage: ParseStage) -> int {
    match stage {
        ParseStage::Csid => 0,
        ParseStage::InitialTimestamp => 6,
        ParseStage::MessageLength => 5,
        ParseStage::MessageTypeId => 4,
        ParseStage::MessageStreamId => 3,
        ParseStage::ExtendedTimestamp => 2,
        ParseStage::MessagePayload => 1,
    }
}

/// Every advance shrinks the measure: the basic header consumes at least one
/// byte, and every other stage either consumes bytes or lowers the rank.
pub proof fn lemma_step_decreases(s: DeserState)
    ensures
        spec_step(s) matches StepOutcome::Advanced { next, .. } ==> next.buffer.len()
            < s.buffer.len() || (next.buffer.len() == s.buffer.len() && stage_rank(next.stage)
            < stage_rank(s.stage)),
{
    reveal(spec_step);
}

/// Runs the machine until it needs more bytes or rejects the stream,
/// collecting the payloads it emits in order.
pub open spec fn spec_run(s: DeserState) -> RunOutcome
    decreases s.buffer.len(), stage_rank(s.stage),
{
    match spec_step(s) {
        StepOutcome::NeedMore => RunOutcome::Stopped { state: s, emitted: Seq::empty() },
        StepOutcome::Rejected { csid } => RunOutcome::Rejected { csid },
        StepOutcome::Advanced { next, emitted } => {
            if next.buffer.len() < s.buffer.len() || (next.buffer.len() == s.buffer.len()
                && stage_rank(next.stage) < stage_rank(s.stage)) {
                let head = match emitted {
                    Some(p) => seq![p],
                    None => Seq::empty(),
                };
                match spec_run(next) {
                    RunOutcome::Stopped { state, emitted: tail } => RunOutcome::Stopped {
                        state,
                        emitted: head + tail,
                    },
                    RunOutcome::Rejected { csid } => RunOutcome::Rejected { csid },
                }
            } else {
                // `lemma_step_decreases` rules this branch out.
                RunOutcome::Stopped { state: next, emitted: Seq::empty() }
            }
        },
    }
}

/// What feeding bytes to the machine does: the input joins the buffer and the
/// machine runs to exhaustion.
pub open spec fn spec_feed(s: DeserState, input: Seq<u8>) -> RunOutcome {
    spec_run(DeserState { buffer: s.buffer + input, ..s })
}

/// The same machine state with more bytes appended to its buffer.
pub open spec fn with_more_bytes(s: DeserState, extra: Seq<u8>) -> DeserState {
    DeserState { buffer: s.buffer + extra, ..s }
}

/// A step the machine could already take is unchanged by bytes that arrive
/// behind the ones it reads: it advances to the same state, with the extra
/// bytes still waiting, and emits the same payload.
pub proof fn lemma_step_more_bytes(s: DeserState, extra: Seq<u8>)
    ensures
        spec_step(s) matches StepOutcome::Advanced { next, emitted } ==> spec_step(
            with_more_bytes(s, extra),
        ) == (StepOutcome::Advanced { next: with_more_bytes(next, extra), emitted }),
        spec_step(s) matches StepOutcome::Rejected { csid } ==> spec_step(
            with_more_bytes(s, extra),
        ) == (StepOutcome::Rejected { csid }),
{
    reveal(spec_step);
    let e = with_more_bytes(s, extra);
    assert(forall|i: int| 0 <= i < s.buffer.len() ==> e.buffer[i] == #[trigger] s.buffer[i]);
    match spec_step(s) {
        StepOutcome::Advanced { next, emitted } => {
            match s.stage {
                ParseStage::Csid => {
                    match spec_csid_of(s.buffer) {
                        Some((csid, consumed)) => {
                            assert(spec_csid_of(e.buffer) == Some((csid, consumed)));
                            assert(e.buffer.skip(consumed) =~= s.buffer.skip(consumed) + extra);
                            assert(spec_step(e) =~~= (StepOutcome::Advanced {
                                next: with_more_bytes(next, extra),
                                emitted,
                            }));
                        },
                        None => {},
                    }
                },
                ParseStage::InitialTimestamp => {
                    if s.format != ChunkHeaderFormat::Empty {
                        assert(e.buffer.subrange(0, 3) =~= s.buffer.subrange(0, 3));
                        assert(e.buffer.skip(3) =~= s.buffer.skip(3) + extra);
                    }
                    assert(spec_step(e) =~~= (StepOutcome::Advanced {
                        next: with_more_bytes(next, extra),
                        emitted,
                    }));
                },
                ParseStage::MessageLength => {
                    if s.format != ChunkHeaderFormat::TimeDeltaOnly && s.format
                        != ChunkHeaderFormat::Empty {
                        assert(e.buffer.subrange(0, 3) =~= s.buffer.subrange(0, 3));
                        assert(e.buffer.skip(3) =~= s.buffer.skip(3) + extra);
                    }
                    assert(spec_step(e) =~~= (StepOutcome::Advanced {
                        next: with_more_bytes(next, extra),
                        emitted,
                    }));
                },
                ParseStage::MessageTypeId => {
                    if s.format != ChunkHeaderFormat::TimeDeltaOnly && s.format
                        != ChunkHeaderFormat::Empty {
                        assert(e.buffer.skip(1) =~= s.buffer.skip(1) + extra);
                    }
                    assert(spec_step(e) =~~= (StepOutcome::Advanced {
                        next: with_more_bytes(next, extra),
                        emitted,
                    }));
                },
                ParseStage::MessageStreamId => {
                    if s.format == ChunkHeaderFormat::Full {
                        assert(e.buffer.subrange(0, 4) =~= s.buffer.subrange(0, 4));
                        assert(e.buffer.skip(4) =~= s.buffer.skip(4) + extra);
                    }
                    assert(spec_step(e) =~~= (StepOutcome::Advanced {
                        next: with_more_bytes(next, extra),
                        emitted,
                    }));
                },
                ParseStage::ExtendedTimestamp => {
                    if next.buffer.len() < s.buffer.len() {
                        assert(e.buffer.subrange(0, 4) =~= s.buffer.subrange(0, 4));
                        assert(e.buffer.skip(4) =~= s.buffer.skip(4) + extra);
                    }
                    assert(spec_step(e) =~~= (StepOutcome::Advanced {
                        next: with_more_bytes(next, extra),
                        emitted,
                    }));
                },
                ParseStage::MessagePayload => {
                    let to_read = spec_chunk_payload_len(s);
                    assert(spec_chunk_payload_len(e) == to_read);
                    assert(e.buffer.subrange(0, to_read) =~= s.buffer.subrange(0, to_read));
                    assert(e.buffer.skip(to_read) =~= s.buffer.skip(to_read) + extra);
                    assert(spec_step(e) =~~= (StepOutcome::Advanced {
                        next: with_more_bytes(next, extra),
                        emitted,
                    }));
                },
            }
        },
        StepOutcome::Rejected { csid } => {
            match spec_csid_of(s.buffer) {
                Some((c, consumed)) => {
                    assert(spec_csid_of(e.buffer) == Some((c, consumed)));
                },
                None => {},
            }
        },
        StepOutcome::NeedMore => {},
    }
}

/// Running with extra bytes behind the buffer first retraces the run without
/// them, then carries on from where that run stopped: the payloads are those
/// of the first run followed by those of the continued one.
pub proof fn lemma_run_more_bytes(s: DeserState, extra: Seq<u8>)
    ensures
        match spec_run(s) {
            RunOutcome::Stopped { state, emitted } => spec_run(with_more_bytes(s, extra))
                == (match spec_run(with_more_bytes(state, extra)) {
                RunOutcome::Stopped { state: state2, emitted: tail } => RunOutcome::Stopped {
                    state: state2,
                    emitted: emitted + tail,
                },
                RunOutcome::Rejected { csid } => RunOutcome::Rejected { csid },
            }),
            RunOutcome::Rejected { csid } => spec_run(with_more_bytes(s, extra))
                == (RunOutcome::Rejected { csid }),
        },
    decreases s.buffer.len(), stage_rank(s.stage),
{
    lemma_step_decreases(s);
    lemma_step_more_bytes(s, extra);
    match spec_step(s) {
        StepOutcome::NeedMore => {
            match spec_run(with_more_bytes(s, extra)) {
                RunOutcome::Stopped { state: state2, emitted: tail } => {
                    assert(Seq::<PayloadView>::empty() + tail =~= tail);
                },
                RunOutcome::Rejected { .. } => {},
            }
        },
        StepOutcome::Rejected { csid } => {},
        StepOutcome::Advanced { next, emitted } => {
            lemma_run_unfold(s);
            lemma_run_unfold(with_more_bytes(s, extra));
            lemma_run_more_bytes(next, extra);
            match spec_run(next) {
                RunOutcome::Stopped { state, emitted: out1 } => {
                    match spec_run(with_more_bytes(state, extra)) {
                        RunOutcome::Stopped { state: state2, emitted: out2 } => {
                            assert(emitted_seq(emitted) + (out1 + out2) =~= (emitted_seq(emitted)
                                + out1) + out2);
                        },
                        RunOutcome::Rejected { .. } => {},
                    }
                },
                RunOutcome::Rejected { .. } => {},
            }
        },
    }
}

/// Fragmentation transparency: feeding a byte stream in two pieces produces
/// the same payloads, in the same order, and leaves the machine in the same
/// state as feeding it whole; a stream the machine rejects is rejected at
/// the same chunk either way.
pub proof fn lemma_feed_split(s: DeserState, first: Seq<u8>, second: Seq<u8>)
    ensures
        match spec_feed(s, first) {
            RunOutcome::Stopped { state, emitted } => spec_feed(s, first + second) == (match spec_feed(
                state,
                second,
            ) {
                RunOutcome::Stopped { state: state2, emitted: tail } => RunOutcome::Stopped {
                    state: state2,
                    emitted: emitted + tail,
                },
                RunOutcome::Rejected { csid } => RunOutcome::Rejected { csid },
            }),
            RunOutcome::Rejected { csid } => spec_feed(s, first + second) == (RunOutcome::Rejected {
                csid,
            }),
        },
{
    let after_first = DeserState { buffer: s.buffer + first, ..s };
    assert(s.buffer + (first + second) =~= (s.buffer + first) + second);
    assert(DeserState { buffer: s.buffer + (first + second), ..s } =~~= with_more_bytes(
        after_first,
        second,
    ));
    lemma_run_more_bytes(after_first, second);
    match spec_run(after_first) {
        RunOutcome::Stopped { state, emitted } => {
            assert(with_more_bytes(state, second) =~~= (DeserState {
                buffer: state.buffer + second,
                ..state
            }));
        },
        RunOutcome::Rejected { .. } => {},
    }
}

/// The fresh state `Deserializer::new` starts from: no cached headers, the
/// protocol's initial maximum chunk size of 128, nothing buffered.
pub open spec fn spec_initial_state() -> DeserState {
    DeserState {
        headers: Map::empty(),
        max_chunk_size: 128,
        buffer: Seq::empty(),
        current: ChunkHeader::spec_new(),
        format: ChunkHeaderFormat::Full,
        stage: ParseStage::Csid,
        payload: PayloadView { timestamp: 0, type_id: 0, stream_id: 0, data: Seq::empty() },
    }
}

/// Whether a step advanced to the given state, and the results list grew by
/// exactly the payload the step emitted, if any.
pub open spec fn advance_matches(
    step: StepOutcome,
    next_state: DeserState,
    results_pre: Seq<MessagePayload>,
    results_post: Seq<MessagePayload>,
) -> bool {
    match step {
        StepOutcome::Advanced { next, emitted } => next == next_state && (match emitted {
            Some(p) => results_post.len() == results_pre.len() + 1 && results_post
                == results_pre.push(results_post.last()) && results_post.last()@ == p,
            None => results_post == results_pre,
        }),
        _ => false,
    }
}

/// The payloads one step emits, as a sequence: one or none.
pub open spec fn emitted_seq(emitted: Option<PayloadView>) -> Seq<PayloadView> {
    match emitted {
        Some(p) => seq![p],
        None => Seq::empty(),
    }
}

/// Unfolds one advancing step out of a run: the run emits what the step
/// emits, followed by whatever the run from the stepped state emits.
pub proof fn lemma_run_unfold(s: DeserState)
    ensures
        spec_step(s) matches StepOutcome::Advanced { next, emitted } ==> spec_run(s) == (match spec_run(
            next,
        ) {
            RunOutcome::Stopped { state, emitted: tail } => RunOutcome::Stopped {
                state,
                emitted: emitted_seq(emitted) + tail,
            },
            RunOutcome::Rejected { csid } => RunOutcome::Rejected { csid },
        }),
{
    lemma_step_decreases(s);
    match spec_step(s) {
        StepOutcome::Advanced { next, emitted } => {
            match emitted {
                Some(p) => {
                    assert(seq![p] == emitted_seq(emitted));
                },
                None => {
                    assert(Seq::<PayloadView>::empty() == emitted_seq(emitted));
                },
            }
        },
        _ => {},
    }
}

/// Carries the feed invariant across one advancing step: if the run from the
/// prior state accounts for the results gathered so far, the run from the
/// stepped state accounts for them plus whatever the step emitted.
pub proof fn lemma_run_extend(
    s0: DeserState,
    pre: DeserState,
    next: DeserState,
    emitted: Option<PayloadView>,
    results_pre: Seq<MessagePayload>,
    results_post: Seq<MessagePayload>,
)
    requires
        spec_step(pre) == (StepOutcome::Advanced { next, emitted }),
        advance_matches(spec_step(pre), next, results_pre, results_post),
        match spec_run(pre) {
            RunOutcome::Stopped { state, emitted: tail } => spec_run(s0) == (RunOutcome::Stopped {
                state,
                emitted: payloads_view(results_pre) + tail,
            }),
            RunOutcome::Rejected { csid } => spec_run(s0) == (RunOutcome::Rejected { csid }),
        },
    ensures
        match spec_run(next) {
            RunOutcome::Stopped { state, emitted: tail } => spec_run(s0) == (RunOutcome::Stopped {
                state,
                emitted: payloads_view(results_post) + tail,
            }),
            RunOutcome::Rejected { csid } => spec_run(s0) == (RunOutcome::Rejected { csid }),
        },
{
    lemma_run_unfold(pre);
    match spec_run(next) {
        RunOutcome::Stopped { state, emitted: tail } => {
            match emitted {
                Some(p) => {
                    lemma_payloads_view_push(results_pre, results_post.last());
                    assert(payloads_view(results_pre) + (emitted_seq(emitted) + tail)
                        =~= payloads_view(results_post) + tail);
                },
                None => {
                    assert(payloads_view(results_pre) + (emitted_seq(emitted) + tail)
                        =~= payloads_view(results_post) + tail);
                },
            }
        },
        RunOutcome::Rejected { .. } => {},
    }
}

/// The models of a list of payloads, in order.
pub open spec fn payloads_view(s: Seq<MessagePayload>) -> Seq<PayloadView>
    decreases s.len(),
{
    if s.len() == 0 {
        Seq::empty()
    } else {
        seq![s[0]@] + payloads_view(s.drop_first())
    }
}

/// Appending a payload to a list appends its model to the list's model.
pub proof fn lemma_payloads_view_push(s: Seq<MessagePayload>, p: MessagePayload)
    ensures
        payloads_view(s.push(p)) == payloads_view(s).push(p@),
    decreases s.len(),
{
    if s.len() == 0 {
        assert(s.push(p).drop_first() =~= s);
        assert(payloads_view(s.push(p)) =~= payloads_view(s).push(p@));
    } else {
        assert(s.push(p).drop_first() =~= s.drop_first().push(p));
        lemma_payloads_view_push(s.drop_first(), p);
        assert(payloads_view(s.push(p)) =~= payloads_view(s).push(p@));
    }
}

/// Deserializes bytes holding RTMP chunks into RTMP message payloads.
/// Every operation mutates the deserializer, because the chunking protocol
/// compresses headers against previously received chunks: the same
/// deserializer must see all bytes received from one peer, in order.
pub struct Deserializer {
    previous_headers: std::collections::HashMap<u32, ChunkHeader>,
    max_chunk_size: u32,
    buffer: Vec<u8>,
    position: usize,
    current_header: ChunkHeader,
    current_header_format: ChunkHeaderFormat,
    current_stage: ParseStage,
    current_payload: MessagePayload,
}

impl View for Deserializer {
    type V = DeserState;

    closed spec fn view(&self) -> DeserState {
        DeserState {
            headers: self.previous_headers@,
            max_chunk_size: self.max_chunk_size,
            buffer: self.buffer@.skip(self.position as int),
            current: self.current_header,
            format: self.current_header_format,
            stage: self.current_stage,
            payload: self.current_payload@,
        }
    }
}

impl Deserializer {
    /// The consumed prefix of the byte buffer never passes its end.
    pub closed spec fn wf(&self) -> bool {
        self.position <= self.buffer@.len()
    }

    /// A deserializer in its initial state.
    pub fn new() -> (r: Deserializer)
        ensures
            r.wf(),
            r@ == spec_initial_state(),
    {
        let r = Deserializer {
            previous_headers: std::collections::HashMap::new(),
            max_chunk_size: 128,
            buffer: Vec::new(),
            position: 0,
            current_header: ChunkHeader::new(),
            current_header_format: ChunkHeaderFormat::Full,
            current_stage: ParseStage::Csid,
            current_payload: MessagePayload::new(),
        };
        proof {
            assert(r@.buffer =~= spec_initial_state().buffer);
            assert(r@.payload.data =~= spec_initial_state().payload.data);
            assert(r@ =~~= spec_initial_state());
        }
        r
    }

    /// Announces the maximum chunk size the peer will use from now on, as
    /// carried by a SetChunkSize message the application decoded.
    pub fn set_max_chunk_size(&mut self, new_size: u32)
        requires
            old(self).wf(),
        ensures
            final(self).wf(),
            final(self)@ == (DeserState { max_chunk_size: new_size, ..old(self)@ }),
    {
        self.max_chunk_size = new_size;
        proof {
            assert(self@ =~~= (DeserState { max_chunk_size: new_size, ..old(self)@ }));
        }
    }

    /// Feeds received bytes to the machine and returns every message payload
    /// they complete, in wire order.  Bytes of an unfinished chunk stay
    /// buffered for the next call, so the input may be cut anywhere.  The
    /// result is exactly what `spec_feed` says of the prior state and the
    /// input; a rejected stream reports the chunk stream id that had no
    /// cached header.
    #[verifier::rlimit(60)]
    pub fn process_bytes(&mut self, bytes: &Vec<u8>) -> (r: Result<
        Vec<MessagePayload>,
        DeserializationError,
    >)
        requires
            old(self).wf(),
        ensures
            final(self).wf(),
            match spec_feed(old(self)@, bytes@) {
                RunOutcome::Stopped { state, emitted } => r matches Ok(v) && final(self)@
                    == state && payloads_view(v@) == emitted,
                RunOutcome::Rejected { csid } => r == Err::<Vec<MessagePayload>,
                    DeserializationError,
                >(DeserializationError::NoPreviousChunkOnStream(csid)),
            },
    {
        let ghost s0 = DeserState { buffer: old(self)@.buffer + bytes@, ..old(self)@ };
        // Drop the consumed prefix, then take in the new bytes.
        if self.position > 0 {
            let tail = self.buffer.split_off(self.position);
            self.buffer = tail;
            self.position = 0;
        }
        self.buffer.extend_from_slice(bytes.as_slice());
        proof {
            assert(self@.buffer =~= s0.buffer);
            assert(self@ =~~= s0);
        }
        let mut results: Vec<MessagePayload> = Vec::new();
        loop
            invariant
                self.wf(),
                s0 == (DeserState { buffer: old(self)@.buffer + bytes@, ..old(self)@ }),
                match spec_run(self@) {
                    RunOutcome::Stopped { state, emitted } => spec_run(s0)
                        == (RunOutcome::Stopped {
                        state,
                        emitted: payloads_view(results@) + emitted,
                    }),
                    RunOutcome::Rejected { csid } => spec_run(s0) == (RunOutcome::Rejected {
                        csid,
                    }),
                },
            decreases self@.buffer.len(), stage_rank(self@.stage),
        {
            let ghost pre = self@;
            let ghost results_pre = results@;
            proof {
                lemma_step_decreases(pre);
            }
            let step = self.step_once(&mut results);
            match step {
                Ok(ParseResult::NotEnoughBytes) => {
                    proof {
                        assert(payloads_view(results@) + Seq::<PayloadView>::empty()
                            =~= payloads_view(results@));
                    }
                    return Ok(results);
                },
                Ok(ParseResult::Success) => {
                    proof {
                        match spec_step(pre) {
                            StepOutcome::Advanced { next, emitted } => {
                                lemma_run_extend(s0, pre, next, emitted, results_pre, results@);
                            },
                            _ => {
                                assert(false);
                            },
                        }
                    }
                },
                Err(e) => {
                    return Err(e);
                },
            }
        }
    }

    /// Performs the one parsing step the current stage asks for.
    fn step_once(&mut self, results: &mut Vec<MessagePayload>) -> (r: Result<
        ParseResult,
        DeserializationError,
    >)
        requires
            old(self).wf(),
        ensures
            final(self).wf(),
            match r {
                Ok(ParseResult::NotEnoughBytes) => spec_step(old(self)@) == StepOutcome::NeedMore
                    && final(self)@ == old(self)@ && final(results)@ == old(results)@,
                Ok(ParseResult::Success) => advance_matches(
                    spec_step(old(self)@),
                    final(self)@,
                    old(results)@,
                    final(results)@,
                ),
                Err(DeserializationError::NoPreviousChunkOnStream(c)) => spec_step(old(self)@)
                    == (StepOutcome::Rejected { csid: c }),
            },
    {
        match self.current_stage {
            ParseStage::Csid => self.form_header(),
            ParseStage::InitialTimestamp => self.get_initial_timestamp(),
            ParseStage::MessageLength => self.get_message_length(),
            ParseStage::MessageTypeId => self.get_message_type_id(),
            ParseStage::MessageStreamId => self.get_message_stream_id(),
            ParseStage::ExtendedTimestamp => self.get_extended_timestamp(),
            ParseStage::MessagePayload => self.get_message_data(results),
        }
    }

    /// Reads the basic header byte and the chunk stream id, and sets up the
    /// header that later stages fill in.
    fn form_header(&mut self) -> (r: Result<ParseResult, DeserializationError>)
        requires
            old(self).wf(),
            old(self)@.stage == ParseStage::Csid,
        ensures
            final(self).wf(),
            match r {
                Ok(ParseResult::NotEnoughBytes) => spec_step(old(self)@) == StepOutcome::NeedMore
                    && final(self)@ == old(self)@,
                Ok(ParseResult::Success) => spec_step(old(self)@) == (StepOutcome::Advanced {
                    next: final(self)@,
                    emitted: None,
                }),
                Err(DeserializationError::NoPreviousChunkOnStream(c)) => spec_step(old(self)@)
                    == (StepOutcome::Rejected { csid: c }),
            },
    {
        let ghost pre = self@;
        proof {
            reveal(spec_step);
        }
        if self.buffer.len() - self.position < 1 {
            return Ok(ParseResult::NotEnoughBytes);
        }
        let format = get_format(&self.buffer[self.position]);
        let (csid, consumed) = match get_csid(&self.buffer, self.position) {
            None => {
                return Ok(ParseResult::NotEnoughBytes);
            },
            Some(pair) => pair,
        };
        if format == ChunkHeaderFormat::Full {
            let mut header = ChunkHeader::new();
            header.chunk_stream_id = csid;
            self.current_header = header;
        } else {
            match self.previous_headers.remove(&csid) {
                None => {
                    return Err(DeserializationError::NoPreviousChunkOnStream(csid));
                },
                Some(header) => {
                    self.current_header = header;
                },
            }
        }
        self.current_header_format = format;
        self.position = self.position + consumed;
        self.current_stage = ParseStage::InitialTimestamp;
        proof {
            assert(self@.buffer =~= pre.buffer.skip(consumed as int));
            match spec_step_csid(pre) {
                StepOutcome::Advanced { next, emitted } => {
                    assert(self@ =~~= next);
                },
                _ => {},
            }
        }
        Ok(ParseResult::Success)
    }

    /// Reads the 3-byte timestamp or delta field, or inherits timestamp and
    /// delta for an Empty header.
    fn get_initial_timestamp(&mut self) -> (r: Result<ParseResult, DeserializationError>)
        requires
            old(self).wf(),
            old(self)@.stage == ParseStage::InitialTimestamp,
        ensures
            final(self).wf(),
            match r {
                Ok(ParseResult::NotEnoughBytes) => spec_step(old(self)@) == StepOutcome::NeedMore
                    && final(self)@ == old(self)@,
                Ok(ParseResult::Success) => spec_step(old(self)@) == (StepOutcome::Advanced {
                    next: final(self)@,
                    emitted: None,
                }),
                Err(_) => false,
            },
    {
        let ghost pre = self@;
        proof {
            reveal(spec_step);
        }
        if self.current_header_format == ChunkHeaderFormat::Empty {
            let updated = crate::timestamp::add_values(
                self.current_header.timestamp.value,
                self.current_header.timestamp_delta,
            );
            self.current_header.timestamp.set(updated);
            self.current_stage = ParseStage::MessageLength;
            proof {
                match spec_step_initial_timestamp(pre) {
                    StepOutcome::Advanced { next, emitted } => {
                        assert(self@ =~~= next);
                    },
                    _ => {},
                }
            }
            return Ok(ParseResult::Success);
        }
        if self.buffer.len() - self.position < 3 {
            return Ok(ParseResult::NotEnoughBytes);
        }
        let wire = read_u24_be(&self.buffer, self.position);
        proof {
            assert(self.buffer@.subrange(self.position as int, self.position + 3)
                =~= pre.buffer.subrange(0, 3));
        }
        if self.current_header_format == ChunkHeaderFormat::Full {
            self.current_header.timestamp.set(wire);
        } else {
            let updated = crate::timestamp::add_values(self.current_header.timestamp.value, wire);
            self.current_header.timestamp.set(updated);
            self.current_header.timestamp_delta = wire;
        }
        self.position = self.position + 3;
        self.current_stage = ParseStage::MessageLength;
        proof {
            assert(self@.buffer =~= pre.buffer.skip(3));
            match spec_step_initial_timestamp(pre) {
                StepOutcome::Advanced { next, emitted } => {
                    assert(self@ =~~= next);
                },
                _ => {},
            }
        }
        Ok(ParseResult::Success)
    }

    /// Reads the 3-byte message length, present only in the two fullest
    /// formats.
    fn get_message_length(&mut self) -> (r: Result<ParseResult, DeserializationError>)
        requires
            old(self).wf(),
            old(self)@.stage == ParseStage::MessageLength,
        ensures
            final(self).wf(),
            match r {
                Ok(ParseResult::NotEnoughBytes) => spec_step(old(self)@) == StepOutcome::NeedMore
                    && final(self)@ == old(self)@,
                Ok(ParseResult::Success) => spec_step(old(self)@) == (StepOutcome::Advanced {
                    next: final(self)@,
                    emitted: None,
                }),
                Err(_) => false,
            },
    {
        let ghost pre = self@;
        proof {
            reveal(spec_step);
        }
        if self.current_header_format == ChunkHeaderFormat::TimeDeltaOnly
            || self.current_header_format == ChunkHeaderFormat::Empty {
            self.current_stage = ParseStage::MessageTypeId;
            proof {
                match spec_step_message_length(pre) {
                    StepOutcome::Advanced { next, emitted } => {
                        assert(self@ =~~= next);
                    },
                    _ => {},
                }
            }
            return Ok(ParseResult::Success);
        }
        if self.buffer.len() - self.position < 3 {
            return Ok(ParseResult::NotEnoughBytes);
        }
        let length = read_u24_be(&self.buffer, self.position);
        proof {
            assert(self.buffer@.subrange(self.position as int, self.position + 3)
                =~= pre.buffer.subrange(0, 3));
        }
        self.current_header.message_length = length;
        self.position = self.position + 3;
        self.current_stage = ParseStage::MessageTypeId;
        proof {
            assert(self@.buffer =~= pre.buffer.skip(3));
            match spec_step_message_length(pre) {
                StepOutcome::Advanced { next, emitted } => {
                    assert(self@ =~~= next);
                },
                _ => {},
            }
        }
        Ok(ParseResult::Success)
    }

    /// Reads the 1-byte message type id, present only in the two fullest
    /// formats.
    fn get_message_type_id(&mut self) -> (r: Result<ParseResult, DeserializationError>)
        requires
            old(self).wf(),
            old(self)@.stage == ParseStage::MessageTypeId,
        ensures
            final(self).wf(),
            match r {
                Ok(ParseResult::NotEnoughBytes) => spec_step(old(self)@) == StepOutcome::NeedMore
                    && final(self)@ == old(self)@,
                Ok(ParseResult::Success) => spec_step(old(self)@) == (StepOutcome::Advanced {
                    next: final(self)@,
                    emitted: None,
                }),
                Err(_) => false,
            },
    {
        let ghost pre = self@;
        proof {
            reveal(spec_step);
        }
        if self.current_header_format == ChunkHeaderFormat::TimeDeltaOnly
            || self.current_header_format == ChunkHeaderFormat::Empty {
            self.current_stage = ParseStage::MessageStreamId;
            proof {
                match spec_step_message_type_id(pre) {
                    StepOutcome::Advanced { next, emitted } => {
                        assert(self@ =~~= next);
                    },
                    _ => {},
                }
            }
            return Ok(ParseResult::Success);
        }
        if self.buffer.len() - self.position < 1 {
            return Ok(ParseResult::NotEnoughBytes);
        }
        self.current_header.message_type_id = self.buffer[self.position];
        self.position = self.position + 1;
        self.current_stage = ParseStage::MessageStreamId;
        proof {
            assert(self@.buffer =~= pre.buffer.skip(1));
            match spec_step_message_type_id(pre) {
                StepOutcome::Advanced { next, emitted } => {
                    assert(self@ =~~= next);
                },
                _ => {},
            }
        }
        Ok(ParseResult::Success)
    }

    /// Reads the 4-byte little-endian message stream id of a Full header.
    fn get_message_stream_id(&mut self) -> (r: Result<ParseResult, DeserializationError>)
        requires
            old(self).wf(),
            old(self)@.stage == ParseStage::MessageStreamId,
        ensures
            final(self).wf(),
            match r {
                Ok(ParseResult::NotEnoughBytes) => spec_step(old(self)@) == StepOutcome::NeedMore
                    && final(self)@ == old(self)@,
                Ok(ParseResult::Success) => spec_step(old(self)@) == (StepOutcome::Advanced {
                    next: final(self)@,
                    emitted: None,
                }),
                Err(_) => false,
            },
    {
        let ghost pre = self@;
        proof {
            reveal(spec_step);
        }
        if self.current_header_format != ChunkHeaderFormat::Full {
            self.current_stage = ParseStage::ExtendedTimestamp;
            proof {
                match spec_step_message_stream_id(pre) {
                    StepOutcome::Advanced { next, emitted } => {
                        assert(self@ =~~= next);
                    },
                    _ => {},
                }
            }
            return Ok(ParseResult::Success);
        }
        if self.buffer.len() - self.position < 4 {
            return Ok(ParseResult::NotEnoughBytes);
        }
        let stream_id = read_u32_le(&self.buffer, self.position);
        proof {
            assert(self.buffer@.subrange(self.position as int, self.position + 4)
                =~= pre.buffer.subrange(0, 4));
        }
        self.current_header.message_stream_id = stream_id;
        self.position = self.position + 4;
        self.current_stage = ParseStage::ExtendedTimestamp;
        proof {
            assert(self@.buffer =~= pre.buffer.skip(4));
            match spec_step_message_stream_id(pre) {
                StepOutcome::Advanced { next, emitted } => {
                    assert(self@ =~~= next);
                },
                _ => {},
            }
        }
        Ok(ParseResult::Success)
    }

    /// Reads the 4-byte extended timestamp when the 3-byte field announced
    /// it; the extended value replaces the 3-byte one.
    fn get_extended_timestamp(&mut self) -> (r: Result<ParseResult, DeserializationError>)
        requires
            old(self).wf(),
            old(self)@.stage == ParseStage::ExtendedTimestamp,
        ensures
            final(self).wf(),
            match r {
                Ok(ParseResult::NotEnoughBytes) => spec_step(old(self)@) == StepOutcome::NeedMore
                    && final(self)@ == old(self)@,
                Ok(ParseResult::Success) => spec_step(old(self)@) == (StepOutcome::Advanced {
                    next: final(self)@,
                    emitted: None,
                }),
                Err(_) => false,
            },
    {
        let ghost pre = self@;
        proof {
            reveal(spec_step);
        }
        let needs_extended = if self.current_header_format == ChunkHeaderFormat::Empty {
            false
        } else if self.current_header_format == ChunkHeaderFormat::Full {
            self.current_header.timestamp.value == MAX_INITIAL_TIMESTAMP
        } else {
            self.current_header.timestamp_delta == MAX_INITIAL_TIMESTAMP
        };
        if !needs_extended {
            self.current_stage = ParseStage::MessagePayload;
            proof {
                match spec_step_extended_timestamp(pre) {
                    StepOutcome::Advanced { next, emitted } => {
                        assert(self@ =~~= next);
                    },
                    _ => {},
                }
            }
            return Ok(ParseResult::Success);
        }
        if self.buffer.len() - self.position < 4 {
            return Ok(ParseResult::NotEnoughBytes);
        }
        let extended = read_u32_be(&self.buffer, self.position);
        proof {
            assert(self.buffer@.subrange(self.position as int, self.position + 4)
                =~= pre.buffer.subrange(0, 4));
        }
        if self.current_header_format == ChunkHeaderFormat::Full {
            self.current_header.timestamp.set(extended);
        } else {
            // The 3-byte value, already folded into the timestamp, gives way
            // to the extended one.
            let base = crate::timestamp::sub_values(
                self.current_header.timestamp.value,
                MAX_INITIAL_TIMESTAMP,
            );
            let updated = crate::timestamp::add_values(base, extended);
            self.current_header.timestamp.set(updated);
            self.current_header.timestamp_delta = extended;
        }
        self.position = self.position + 4;
        self.current_stage = ParseStage::MessagePayload;
        proof {
            assert(self@.buffer =~= pre.buffer.skip(4));
            match spec_step_extended_timestamp(pre) {
                StepOutcome::Advanced { next, emitted } => {
                    assert(self@ =~~= next);
                },
                _ => {},
            }
        }
        Ok(ParseResult::Success)
    }

    /// Consumes the chunk's slice of the payload, emits the payload when it
    /// is complete, and caches the chunk's header for its chunk stream.
    fn get_message_data(&mut self, results: &mut Vec<MessagePayload>) -> (r: Result<
        ParseResult,
        DeserializationError,
    >)
        requires
            old(self).wf(),
            old(self)@.stage == ParseStage::MessagePayload,
        ensures
            final(self).wf(),
            match r {
                Ok(ParseResult::NotEnoughBytes) => spec_step(old(self)@) == StepOutcome::NeedMore
                    && final(self)@ == old(self)@ && final(results)@ == old(results)@,
                Ok(ParseResult::Success) => advance_matches(
                    spec_step(old(self)@),
                    final(self)@,
                    old(results)@,
                    final(results)@,
                ),
                Err(_) => false,
            },
    {
        let ghost pre = self@;
        proof {
            reveal(spec_step);
        }
        let length = self.current_header.message_length as usize;
        let already = self.current_payload.data.len();
        let max = self.max_chunk_size as usize;
        let to_read: usize = if length > max {
            let remaining = if length > already {
                length - already
            } else {
                0
            };
            if remaining < max {
                remaining
            } else {
                max
            }
        } else {
            length
        };
        proof {
            assert(to_read == spec_chunk_payload_len(pre));
        }
        if self.buffer.len() - self.position < to_read {
            return Ok(ParseResult::NotEnoughBytes);
        }
        self.current_payload.timestamp = self.current_header.timestamp;
        self.current_payload.type_id = self.current_header.message_type_id;
        self.current_payload.stream_id = self.current_header.message_stream_id;
        let mut chunk: Vec<u8> = Vec::new();
        let mut i: usize = 0;
        while i < to_read
            invariant
                i <= to_read,
                self.position + to_read <= self.buffer.len(),
                chunk@ == self.buffer@.subrange(self.position as int, self.position + i),
            decreases to_read - i,
        {
            chunk.push(self.buffer[self.position + i]);
            i = i + 1;
            proof {
                assert(chunk@ =~= self.buffer@.subrange(self.position as int, self.position + i));
            }
        }
        self.current_payload.data.append(&mut chunk);
        proof {
            assert(self.buffer@.subrange(self.position as int, self.position + to_read)
                =~= pre.buffer.subrange(0, to_read as int));
            assert(self.current_payload.data@ =~= pre.payload.data + pre.buffer.subrange(
                0,
                to_read as int,
            ));
        }
        self.position = self.position + to_read;
        let complete = self.current_payload.data.len() == length;
        if complete {
            let mut finished = MessagePayload::new();
            core::mem::swap(&mut self.current_payload, &mut finished);
            results.push(finished);
        }
        let header = self.current_header;
        self.current_header = ChunkHeader::new();
        self.previous_headers.insert(header.chunk_stream_id, header);
        self.current_stage = ParseStage::Csid;
        proof {
            assert(self@.buffer =~= pre.buffer.skip(spec_chunk_payload_len(pre)));
            match spec_step_message_payload(pre) {
                StepOutcome::Advanced { next, emitted } => {
                    assert(self@.payload.data =~= next.payload.data);
                    assert(self@ =~~= next);
                },
                _ => {},
            }
        }
        Ok(ParseResult::Success)
    }
}

/// The chunk header format named by the top two bits of a basic header byte.
fn get_format(byte: &u8) -> (r: ChunkHeaderFormat)
    ensures
        r == spec_format_of(*byte),
{
    let format_bits = *byte & 0xC0;
    if format_bits == 0x00 {
        ChunkHeaderFormat::Full
    } else if format_bits == 0x40 {
        ChunkHeaderFormat::TimeDeltaWithoutMessageStreamId
    } else if format_bits == 0x80 {
        ChunkHeaderFormat::TimeDeltaOnly
    } else {
        ChunkHeaderFormat::Empty
    }
}

/// The chunk stream id at `position`, with the bytes its wire form takes.
fn get_csid(buffer: &Vec<u8>, position: usize) -> (r: Option<(u32, usize)>)
    requires
        position <= buffer.len(),
    ensures
        match spec_csid_of(buffer@.skip(position as int)) {
            None => r is None,
            Some((csid, consumed)) => r matches Some((c, k)) && c == csid && k == consumed
                && position + k <= buffer.len(),
        },
{
    let available = buffer.len() - position;
    if available < 1 {
        return None;
    }
    let low = buffer[position] & 0x3F;
    if low == 0 {
        if available < 2 {
            None
        } else {
            Some((buffer[position + 1] as u32 + 64, 2))
        }
    } else if low == 1 {
        if available < 3 {
            None
        } else {
            Some((buffer[position + 2] as u32 * 0x100 + buffer[position + 1] as u32 + 64, 3))
        }
    } else {
        Some((low as u32, 1))
    }
}

} // verus!
