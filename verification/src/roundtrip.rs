//! The chunk codec round trip: a deserializer fed what a serializer produced
//! for one message, both using the same maximum chunk size, yields exactly
//! that message back.

use vstd::prelude::*;

use crate::chunk_header::{ChunkHeader, ChunkHeaderFormat};
use crate::deserialization::{
    emitted_seq, lemma_run_unfold, spec_chunk_payload_len, spec_csid_of, spec_format_of, spec_run,
    spec_step, DeserState, ParseStage, RunOutcome, StepOutcome,
};
use crate::message_payload::PayloadView;
use crate::serialization::{
    spec_basic_header, spec_cached_header, spec_clamped, spec_csid_for_message_type,
    spec_extended_field, spec_first_chunk_end, spec_message_header, spec_continuations,
    spec_serialize, SerState, MAX_INITIAL_TIMESTAMP,
};
use crate::timestamp::{spec_add_values, RtmpTimestamp};
use crate::utils::{
    lemma_u24_be_round_trip, lemma_u32_be_round_trip, lemma_u32_le_round_trip, u24_be_bytes,
    u32_be_bytes, u32_le_bytes,
};

verus! {

/// The bytes `spec_serialize` produces, where it succeeds.
pub open spec fn spec_serialized_bytes(st: SerState, p: PayloadView, force_uncompressed: bool) -> Seq<
    u8,
> {
    match spec_serialize(st, p, force_uncompressed) {
        Ok((st2, bytes)) => bytes,
        Err(_) => Seq::empty(),
    }
}

/// Whether a run stopped cleanly having consumed everything and emitted
/// exactly the expected payloads.
pub open spec fn run_yields(outcome: RunOutcome, expected: Seq<PayloadView>) -> bool {
    match outcome {
        RunOutcome::Stopped { state, emitted } => emitted == expected && state.buffer.len() == 0,
        RunOutcome::Rejected { .. } => false,
    }
}

/// A step that emits nothing leaves the run's outcome untouched.
proof fn lemma_run_silent_step(s: DeserState, next: DeserState)
    requires
        spec_step(s) == (StepOutcome::Advanced { next, emitted: None }),
    ensures
        spec_run(s) == spec_run(next),
{
    lemma_run_unfold(s);
    match spec_run(next) {
        RunOutcome::Stopped { state, emitted } => {
            assert(emitted_seq(None) + emitted =~= emitted);
        },
        RunOutcome::Rejected { .. } => {},
    }
}

/// The one basic header byte of a small chunk stream id: the format bits
/// survive, and the low six bits name the chunk stream.
proof fn lemma_small_csid_byte(csid: u32, bits: u8, b: u8)
    by (bit_vector)
    requires
        2 <= csid <= 63,
        bits == 0x00 || bits == 0xC0,
        b == (bits + csid) as u8,
    ensures
        b & 0xC0 == bits,
        (b & 0x3F) as u32 == csid,
        b & 0x3F != 0,
        b & 0x3F != 1,
{
}

/// Adding a zero delta leaves a timestamp value unchanged.
proof fn lemma_add_zero_delta(v: u32, r: u32)
    by (bit_vector)
    requires
        r == ((v + 0) % 0x100000000int) as u32,
    ensures
        r == v,
{
}

/// The chunk stream ids the serializer assigns fit the one-byte basic header.
proof fn lemma_csid_small(type_id: u8)
    ensures
        2 <= spec_csid_for_message_type(type_id) <= 6,
{
}

/// Running the deserializer over one Full chunk header leaves it ready to
/// read the payload, with the header fields exactly as serialized.
#[verifier::rlimit(100)]
#[verifier::spinoff_prover]
proof fn lemma_run_full_header(d: DeserState, hdr: ChunkHeader, rest: Seq<u8>)
    requires
        d.stage == ParseStage::Csid,
        2 <= hdr.chunk_stream_id <= 63,
        hdr.timestamp_delta == 0,
        hdr.message_length <= MAX_INITIAL_TIMESTAMP,
        d.buffer == spec_basic_header(ChunkHeaderFormat::Full, hdr.chunk_stream_id)
            + spec_message_header(ChunkHeaderFormat::Full, hdr, 0) + rest,
    ensures
        spec_run(d) == spec_run(
            DeserState {
                buffer: rest,
                current: hdr,
                format: ChunkHeaderFormat::Full,
                stage: ParseStage::MessagePayload,
                ..d
            },
        ),
{
    reveal(spec_step);
    let csid = hdr.chunk_stream_id;
    let header_bytes = spec_message_header(ChunkHeaderFormat::Full, hdr, 0);
    let b0 = (0x00 + csid) as u8;
    lemma_small_csid_byte(csid, 0x00, b0);
    assert(spec_basic_header(ChunkHeaderFormat::Full, csid) =~= seq![b0]);
    assert(d.buffer[0] == b0);
    assert(spec_csid_of(d.buffer) == Some((csid, 1int)));
    assert(spec_format_of(b0) == ChunkHeaderFormat::Full);

    // The basic header byte goes, leaving the message header and the rest.
    let d1 = DeserState {
        buffer: header_bytes + rest,
        current: ChunkHeader { chunk_stream_id: csid, ..ChunkHeader::spec_new() },
        format: ChunkHeaderFormat::Full,
        stage: ParseStage::InitialTimestamp,
        ..d
    };
    assert(d.buffer.skip(1) =~= header_bytes + rest);
    assert(spec_step(d) =~~= (StepOutcome::Advanced { next: d1, emitted: None }));
    lemma_run_silent_step(d, d1);

    // The 3-byte timestamp field.
    let clamped = spec_clamped(hdr.timestamp.value);
    lemma_u24_be_round_trip(clamped);
    let after_ts = u24_be_bytes(hdr.message_length) + seq![hdr.message_type_id] + u32_le_bytes(
        hdr.message_stream_id,
    ) + spec_extended_field(hdr.timestamp.value) + rest;
    assert(d1.buffer.subrange(0, 3) =~= u24_be_bytes(clamped));
    assert(d1.buffer.skip(3) =~= after_ts);
    let d2 = DeserState {
        buffer: after_ts,
        current: ChunkHeader {
            timestamp: RtmpTimestamp { value: clamped },
            ..d1.current
        },
        stage: ParseStage::MessageLength,
        ..d1
    };
    assert(spec_step(d1) =~~= (StepOutcome::Advanced { next: d2, emitted: None }));
    lemma_run_silent_step(d1, d2);

    // The 3-byte message length.
    lemma_u24_be_round_trip(hdr.message_length);
    let after_len = seq![hdr.message_type_id] + u32_le_bytes(hdr.message_stream_id)
        + spec_extended_field(hdr.timestamp.value) + rest;
    assert(d2.buffer.subrange(0, 3) =~= u24_be_bytes(hdr.message_length));
    assert(d2.buffer.skip(3) =~= after_len);
    let d3 = DeserState {
        buffer: after_len,
        current: ChunkHeader { message_length: hdr.message_length, ..d2.current },
        stage: ParseStage::MessageTypeId,
        ..d2
    };
    assert(spec_step(d2) =~~= (StepOutcome::Advanced { next: d3, emitted: None }));
    lemma_run_silent_step(d2, d3);

    // The 1-byte type id.
    let after_type = u32_le_bytes(hdr.message_stream_id) + spec_extended_field(
        hdr.timestamp.value,
    ) + rest;
    assert(d3.buffer[0] == hdr.message_type_id);
    assert(d3.buffer.skip(1) =~= after_type);
    let d4 = DeserState {
        buffer: after_type,
        current: ChunkHeader { message_type_id: hdr.message_type_id, ..d3.current },
        stage: ParseStage::MessageStreamId,
        ..d3
    };
    assert(spec_step(d3) =~~= (StepOutcome::Advanced { next: d4, emitted: None }));
    lemma_run_silent_step(d3, d4);

    // The 4-byte little-endian message stream id.
    lemma_u32_le_round_trip(hdr.message_stream_id);
    let after_sid = spec_extended_field(hdr.timestamp.value) + rest;
    assert(d4.buffer.subrange(0, 4) =~= u32_le_bytes(hdr.message_stream_id));
    assert(d4.buffer.skip(4) =~= after_sid);
    let d5 = DeserState {
        buffer: after_sid,
        current: ChunkHeader { message_stream_id: hdr.message_stream_id, ..d4.current },
        stage: ParseStage::ExtendedTimestamp,
        ..d4
    };
    assert(spec_step(d4) =~~= (StepOutcome::Advanced { next: d5, emitted: None }));
    lemma_run_silent_step(d4, d5);

    // The extended timestamp, exactly when the 3-byte field was saturated.
    let d6 = DeserState {
        buffer: rest,
        current: hdr,
        format: ChunkHeaderFormat::Full,
        stage: ParseStage::MessagePayload,
        ..d
    };
    if hdr.timestamp.value < MAX_INITIAL_TIMESTAMP {
        assert(spec_extended_field(hdr.timestamp.value) =~= Seq::<u8>::empty());
        assert(d5.buffer =~= rest);
        assert(d5.current =~= hdr);
        assert(spec_step(d5) =~~= (StepOutcome::Advanced { next: d6, emitted: None }));
        lemma_run_silent_step(d5, d6);
    } else {
        assert(spec_extended_field(hdr.timestamp.value) =~= u32_be_bytes(hdr.timestamp.value));
        lemma_u32_be_round_trip(hdr.timestamp.value);
        assert(d5.current.timestamp.value == MAX_INITIAL_TIMESTAMP);
        assert(d5.buffer.subrange(0, 4) =~= u32_be_bytes(hdr.timestamp.value));
        assert(d5.buffer.skip(4) =~= rest);
        assert(spec_step(d5) =~~= (StepOutcome::Advanced { next: d6, emitted: None }));
        lemma_run_silent_step(d5, d6);
    }
}

/// Running the deserializer over the continuation chunks of a message whose
/// first slice is already assembled reassembles the whole payload and stops
/// with an empty buffer.
#[verifier::rlimit(100)]
#[verifier::spinoff_prover]
proof fn lemma_run_continuations(d: DeserState, hdr: ChunkHeader, data: Seq<u8>, from: int)
    requires
        d.stage == ParseStage::Csid,
        2 <= hdr.chunk_stream_id <= 63,
        hdr.timestamp_delta == 0,
        hdr.message_length == data.len(),
        data.len() <= MAX_INITIAL_TIMESTAMP,
        1 <= d.max_chunk_size,
        data.len() > d.max_chunk_size,
        0 < from < data.len(),
        d.buffer == spec_continuations(hdr.chunk_stream_id, data, from, d.max_chunk_size),
        d.headers.contains_key(hdr.chunk_stream_id),
        d.headers[hdr.chunk_stream_id] == hdr,
        d.payload.data == data.take(from),
    ensures
        run_yields(
            spec_run(d),
            seq![
                PayloadView {
                    timestamp: hdr.timestamp.value,
                    type_id: hdr.message_type_id,
                    stream_id: hdr.message_stream_id,
                    data: data,
                },
            ],
        ),
    decreases data.len() - from,
{
    reveal(spec_step);
    let csid = hdr.chunk_stream_id;
    let max = d.max_chunk_size;
    let end = if from + max <= data.len() {
        from + max
    } else {
        data.len() as int
    };
    let b0 = (0xC0 + csid) as u8;
    lemma_small_csid_byte(csid, 0xC0, b0);
    assert(spec_basic_header(ChunkHeaderFormat::Empty, csid) =~= seq![b0]);
    assert(d.buffer[0] == b0);
    assert(spec_csid_of(d.buffer) == Some((csid, 1int)));
    assert(spec_format_of(b0) == ChunkHeaderFormat::Empty);

    let tail = data.subrange(from, end) + spec_continuations(csid, data, end, max);
    assert(d.buffer.skip(1) =~= tail);
    let d1 = DeserState {
        buffer: tail,
        headers: d.headers.remove(csid),
        current: hdr,
        format: ChunkHeaderFormat::Empty,
        stage: ParseStage::InitialTimestamp,
        ..d
    };
    assert(spec_step(d) =~~= (StepOutcome::Advanced { next: d1, emitted: None }));
    lemma_run_silent_step(d, d1);

    // An Empty header reads nothing: the zero delta leaves the timestamp be,
    // and every other field is inherited.
    lemma_add_zero_delta(
        hdr.timestamp.value,
        spec_add_values(hdr.timestamp.value, 0),
    );
    let d2 = DeserState { stage: ParseStage::MessageLength, ..d1 };
    assert(spec_step(d1) =~~= (StepOutcome::Advanced { next: d2, emitted: None }));
    lemma_run_silent_step(d1, d2);
    let d3 = DeserState { stage: ParseStage::MessageTypeId, ..d2 };
    assert(spec_step(d2) =~~= (StepOutcome::Advanced { next: d3, emitted: None }));
    lemma_run_silent_step(d2, d3);
    let d4 = DeserState { stage: ParseStage::MessageStreamId, ..d3 };
    assert(spec_step(d3) =~~= (StepOutcome::Advanced { next: d4, emitted: None }));
    lemma_run_silent_step(d3, d4);
    let d5 = DeserState { stage: ParseStage::ExtendedTimestamp, ..d4 };
    assert(spec_step(d4) =~~= (StepOutcome::Advanced { next: d5, emitted: None }));
    lemma_run_silent_step(d4, d5);
    let d6 = DeserState { stage: ParseStage::MessagePayload, ..d5 };
    assert(spec_step(d5) =~~= (StepOutcome::Advanced { next: d6, emitted: None }));
    lemma_run_silent_step(d5, d6);

    // The chunk's slice of the payload.
    let to_read = spec_chunk_payload_len(d6);
    assert(to_read == end - from);
    assert(d6.buffer.subrange(0, to_read) =~= data.subrange(from, end));
    assert(d6.buffer.skip(to_read) =~= spec_continuations(csid, data, end, max));
    let assembled = PayloadView {
        timestamp: hdr.timestamp.value,
        type_id: hdr.message_type_id,
        stream_id: hdr.message_stream_id,
        data: data.take(from) + data.subrange(from, end),
    };
    assert(assembled.data =~= data.take(end));
    let complete = end == data.len();
    let d7 = DeserState {
        buffer: spec_continuations(csid, data, end, max),
        headers: d6.headers.insert(csid, hdr),
        current: ChunkHeader::spec_new(),
        stage: ParseStage::Csid,
        payload: if complete {
            PayloadView { timestamp: 0, type_id: 0, stream_id: 0, data: Seq::empty() }
        } else {
            assembled
        },
        ..d6
    };
    if complete {
        assert(spec_step(d6) =~~= (StepOutcome::Advanced {
            next: d7,
            emitted: Some(
                PayloadView {
                    timestamp: hdr.timestamp.value,
                    type_id: hdr.message_type_id,
                    stream_id: hdr.message_stream_id,
                    data: data,
                },
            ),
        }));
        lemma_run_unfold(d6);
        assert(spec_continuations(csid, data, end, max) =~= Seq::<u8>::empty());
        assert(spec_step(d7) == StepOutcome::NeedMore);
        assert(spec_run(d7) == (RunOutcome::Stopped { state: d7, emitted: Seq::empty() }));
        assert(emitted_seq(
            Some(
                PayloadView {
                    timestamp: hdr.timestamp.value,
                    type_id: hdr.message_type_id,
                    stream_id: hdr.message_stream_id,
                    data: data,
                },
            ),
        ) + Seq::<PayloadView>::empty() =~= seq![
            PayloadView {
                timestamp: hdr.timestamp.value,
                type_id: hdr.message_type_id,
                stream_id: hdr.message_stream_id,
                data: data,
            },
        ]);
        assert(spec_run(d) == spec_run(d6));
    } else {
        assert(spec_step(d6) =~~= (StepOutcome::Advanced { next: d7, emitted: None }));
        lemma_run_silent_step(d6, d7);
        assert(d7.headers[csid] == hdr);
        lemma_run_continuations(d7, hdr, data, end);
    }
}

/// Chunk codec round trip: feeding a deserializer the chunks a serializer
/// produced for one message, under one shared maximum chunk size, yields
/// exactly that message.  The serializer is asked for an uncompressed
/// header, so any cached headers on either side are immaterial; the
/// deserializer must be between messages with nothing buffered.
#[verifier::rlimit(100)]
#[verifier::spinoff_prover]
pub proof fn lemma_chunk_codec_round_trip(ser: SerState, d: DeserState, p: PayloadView)
    requires
        p.data.len() <= MAX_INITIAL_TIMESTAMP,
        1 <= ser.max_chunk_size,
        d.max_chunk_size == ser.max_chunk_size,
        d.stage == ParseStage::Csid,
        d.payload.data == Seq::<u8>::empty(),
        d.buffer == spec_serialized_bytes(ser, p, true),
    ensures
        spec_serialize(ser, p, true) is Ok,
        run_yields(spec_run(d), seq![p]),
{
    reveal(spec_step);
    let csid = spec_csid_for_message_type(p.type_id);
    lemma_csid_small(p.type_id);
    let hdr = spec_cached_header(ser, p, true);
    let max = ser.max_chunk_size;
    let fe = spec_first_chunk_end(p.data.len() as int, max);
    let rest = p.data.subrange(0, fe) + spec_continuations(csid, p.data, fe, max);
    assert(d.buffer =~= spec_basic_header(ChunkHeaderFormat::Full, csid) + spec_message_header(
        ChunkHeaderFormat::Full,
        hdr,
        0,
    ) + rest);
    lemma_run_full_header(d, hdr, rest);
    let d6 = DeserState {
        buffer: rest,
        current: hdr,
        format: ChunkHeaderFormat::Full,
        stage: ParseStage::MessagePayload,
        ..d
    };

    let to_read = spec_chunk_payload_len(d6);
    assert(fe == to_read);
    assert(d6.buffer.subrange(0, to_read) =~= p.data.subrange(0, fe));
    assert(d6.buffer.skip(to_read) =~= spec_continuations(csid, p.data, fe, max));
    let assembled = PayloadView {
        timestamp: hdr.timestamp.value,
        type_id: hdr.message_type_id,
        stream_id: hdr.message_stream_id,
        data: Seq::<u8>::empty() + p.data.subrange(0, fe),
    };
    assert(assembled.data =~= p.data.take(fe));
    let complete = fe == p.data.len();
    let d7 = DeserState {
        buffer: spec_continuations(csid, p.data, fe, max),
        headers: d6.headers.insert(csid, hdr),
        current: ChunkHeader::spec_new(),
        stage: ParseStage::Csid,
        payload: if complete {
            PayloadView { timestamp: 0, type_id: 0, stream_id: 0, data: Seq::empty() }
        } else {
            assembled
        },
        ..d6
    };
    if complete {
        let whole = PayloadView {
            timestamp: hdr.timestamp.value,
            type_id: hdr.message_type_id,
            stream_id: hdr.message_stream_id,
            data: assembled.data,
        };
        assert(whole =~~= p);
        assert(spec_step(d6) =~~= (StepOutcome::Advanced { next: d7, emitted: Some(whole) }));
        lemma_run_unfold(d6);
        assert(spec_continuations(csid, p.data, fe, max) =~= Seq::<u8>::empty());
        assert(spec_step(d7) == StepOutcome::NeedMore);
        assert(spec_run(d7) == (RunOutcome::Stopped { state: d7, emitted: Seq::empty() }));
        assert(emitted_seq(Some(whole)) + Seq::<PayloadView>::empty() =~= seq![p]);
    } else {
        assert(spec_step(d6) =~~= (StepOutcome::Advanced { next: d7, emitted: None }));
        lemma_run_silent_step(d6, d7);
        assert(d7.payload.data =~= p.data.take(fe));
        lemma_run_continuations(d7, hdr, p.data, fe);
        assert(seq![
            PayloadView {
                timestamp: hdr.timestamp.value,
                type_id: hdr.message_type_id,
                stream_id: hdr.message_stream_id,
                data: p.data,
            },
        ] =~~= seq![p]);
    }
}

} // verus!
