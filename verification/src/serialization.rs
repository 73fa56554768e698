//! The chunk serializer: message payloads out, chunk bytes in wire order.
//!
//! Each chunk stream remembers the header of the last chunk sent on it, and
//! a new message's header is compressed against that memory: an unchanged
//! message stream id admits a delta format, unchanged length and type admit a
//! delta-only format, and an unchanged delta admits an empty one.  A payload
//! longer than the local maximum chunk size is split, the continuation
//! chunks carrying empty headers.

use vstd::prelude::*;

use crate::chunk_header::{ChunkHeader, ChunkHeaderFormat};
use crate::message_payload::{MessagePayload, PayloadView};
use crate::timestamp::{spec_sub_values, sub_values, RtmpTimestamp};
use crate::utils::{
    append_range, u24_be_bytes, u32_be_bytes, u32_le_bytes, write_u24_be, write_u32_be,
    write_u32_le,
};

verus! {

broadcast use vstd::std_specs::hash::group_hash_axioms;

/// The largest value the 3-byte timestamp and length fields can carry, and
/// so the largest timestamp written without an extended field and the
/// largest payload a message may have.
pub const MAX_INITIAL_TIMESTAMP: u32 = 16777215;

/// Why a message could not be serialized.
#[derive(Eq, PartialEq, Structural, Debug, Copy, Clone)]
pub enum SerializationError {
    /// The payload was 2^24 bytes or more: its length cannot be written in
    /// the 3-byte length field.
    MessageTooLong,
}

/// The mathematical state of a serializer.
#[verifier::ext_equal]
pub struct SerState {
    /// The header of the last chunk sent on each chunk stream.
    pub headers: Map<u32, ChunkHeader>,
    /// The local maximum chunk size.
    pub max_chunk_size: u32,
}

/// The chunk stream a message type is sent on, so that repeated messages of
/// one kind share a lane and compress well: protocol control on 2, AMF0 data
/// on 3, video on 4, audio on 5, everything else on 6.
pub open spec fn spec_csid_for_message_type(message_type_id: u8) -> u32 {
    if 1 <= message_type_id <= 6 {
        2
    } else if message_type_id == 18 || message_type_id == 19 {
        3
    } else if message_type_id == 9 {
        4
    } else if message_type_id == 8 {
        5
    } else {
        6
    }
}

/// The format bits that start a basic header byte.
pub open spec fn spec_format_bits(format: ChunkHeaderFormat) -> u8 {
    match format {
        ChunkHeaderFormat::Full => 0x00,
        ChunkHeaderFormat::TimeDeltaWithoutMessageStreamId => 0x40,
        ChunkHeaderFormat::TimeDeltaOnly => 0x80,
        ChunkHeaderFormat::Empty => 0xC0,
    }
}

/// The basic header: format bits joined with the 1-, 2- or 3-byte encoding
/// of the chunk stream id.
pub open spec fn spec_basic_header(format: ChunkHeaderFormat, csid: u32) -> Seq<u8> {
    let bits = spec_format_bits(format);
    if csid <= 63 {
        seq![(bits + csid) as u8]
    } else if csid <= 319 {
        seq![bits, (csid - 64) as u8]
    } else {
        seq![(bits + 1) as u8, ((csid - 64) % 0x100) as u8, ((csid - 64) / 0x100) as u8]
    }
}

/// The format a header is sent in, and the timestamp delta that the delta
/// formats carry: a changed message stream id forces a Full header; changed
/// length or type id keep them in the header but drop the stream id; an
/// unchanged delta lets the whole header be omitted.
pub open spec fn spec_choose_format(prev: ChunkHeader, hdr: ChunkHeader) -> (
    ChunkHeaderFormat,
    u32,
) {
    if hdr.message_stream_id != prev.message_stream_id {
        (ChunkHeaderFormat::Full, 0u32)
    } else {
        let delta = spec_sub_values(hdr.timestamp.value, prev.timestamp.value);
        if hdr.message_type_id != prev.message_type_id || hdr.message_length
            != prev.message_length {
            (ChunkHeaderFormat::TimeDeltaWithoutMessageStreamId, delta)
        } else if delta != prev.timestamp_delta {
            (ChunkHeaderFormat::TimeDeltaOnly, delta)
        } else {
            (ChunkHeaderFormat::Empty, delta)
        }
    }
}

/// The extended timestamp field: present exactly when the 3-byte field is
/// written as its maximum value.
pub open spec fn spec_extended_field(value: u32) -> Seq<u8> {
    if value >= MAX_INITIAL_TIMESTAMP {
        u32_be_bytes(value)
    } else {
        Seq::empty()
    }
}

/// The 3-byte field's value: the real one, clamped to the field's capacity.
pub open spec fn spec_clamped(value: u32) -> u32 {
    if value < MAX_INITIAL_TIMESTAMP {
        value
    } else {
        MAX_INITIAL_TIMESTAMP
    }
}

/// The message header that follows the basic header, by format: timestamp or
/// delta, length and type id, little-endian stream id, and the extended
/// timestamp when the 3-byte field overflowed.
pub open spec fn spec_message_header(format: ChunkHeaderFormat, hdr: ChunkHeader, delta: u32) -> Seq<
    u8,
> {
    match format {
        ChunkHeaderFormat::Full => u24_be_bytes(spec_clamped(hdr.timestamp.value)) + u24_be_bytes(
            hdr.message_length,
        ) + seq![hdr.message_type_id] + u32_le_bytes(hdr.message_stream_id) + spec_extended_field(
            hdr.timestamp.value,
        ),
        ChunkHeaderFormat::TimeDeltaWithoutMessageStreamId => u24_be_bytes(spec_clamped(delta))
            + u24_be_bytes(hdr.message_length) + seq![hdr.message_type_id] + spec_extended_field(
            delta,
        ),
        ChunkHeaderFormat::TimeDeltaOnly => u24_be_bytes(spec_clamped(delta))
            + spec_extended_field(delta),
        ChunkHeaderFormat::Empty => Seq::empty(),
    }
}

/// The first chunk's share of the payload: everything that fits the maximum
/// chunk size.  A maximum of zero disables splitting.
pub open spec fn spec_first_chunk_end(data_len: int, max: u32) -> int {
    if max == 0 || data_len <= max {
        data_len
    } else {
        max as int
    }
}

/// The continuation chunks for the payload bytes from `from` on: each an
/// Empty basic header and the next slice of at most `max` bytes.
pub open spec fn spec_continuations(csid: u32, data: Seq<u8>, from: int, max: u32) -> Seq<u8>
    decreases data.len() - from,
{
    if from >= data.len() || max == 0 {
        Seq::empty()
    } else {
        let end = if from + max <= data.len() {
            from + max
        } else {
            data.len() as int
        };
        spec_basic_header(ChunkHeaderFormat::Empty, csid) + data.subrange(from, end)
            + spec_continuations(csid, data, end, max)
    }
}

/// The header a payload asks for before compression: every field explicit,
/// no delta yet.
pub open spec fn spec_base_header(p: PayloadView) -> ChunkHeader {
    ChunkHeader {
        chunk_stream_id: spec_csid_for_message_type(p.type_id),
        timestamp: RtmpTimestamp { value: p.timestamp },
        timestamp_delta: 0,
        message_length: p.data.len() as u32,
        message_type_id: p.type_id,
        message_stream_id: p.stream_id,
    }
}

/// The format a payload's first chunk is sent in, and the delta it carries:
/// Full when forced or when its chunk stream has no cached header, else
/// whatever the cached header admits.
pub open spec fn spec_chosen_format(st: SerState, p: PayloadView, force_uncompressed: bool) -> (
    ChunkHeaderFormat,
    u32,
) {
    let csid = spec_csid_for_message_type(p.type_id);
    if force_uncompressed || !st.headers.contains_key(csid) {
        (ChunkHeaderFormat::Full, 0u32)
    } else {
        spec_choose_format(st.headers[csid], spec_base_header(p))
    }
}

/// The header cached for the chunk stream after a payload is sent: the
/// payload's fields and the delta its chunk carried.
pub open spec fn spec_cached_header(st: SerState, p: PayloadView, force_uncompressed: bool) -> ChunkHeader {
    ChunkHeader { timestamp_delta: spec_chosen_format(st, p, force_uncompressed).1, ..spec_base_header(p) }
}

/// What serializing a payload does: the chosen header, the first chunk, the
/// continuation chunks, and the header cached for the chunk stream.  Fails
/// exactly when the payload cannot fit the 3-byte length field.
pub open spec fn spec_serialize(st: SerState, p: PayloadView, force_uncompressed: bool) -> Result<
    (SerState, Seq<u8>),
    SerializationError,
> {
    if p.data.len() > MAX_INITIAL_TIMESTAMP {
        Err(SerializationError::MessageTooLong)
    } else {
        let csid = spec_csid_for_message_type(p.type_id);
        let chosen = spec_chosen_format(st, p, force_uncompressed);
        let hdr = spec_cached_header(st, p, force_uncompressed);
        let first_end = spec_first_chunk_end(p.data.len() as int, st.max_chunk_size);
        let bytes = spec_basic_header(chosen.0, csid) + spec_message_header(chosen.0, hdr, chosen.1)
            + p.data.subrange(0, first_end) + spec_continuations(
            csid,
            p.data,
            first_end,
            st.max_chunk_size,
        );
        Ok((SerState { headers: st.headers.insert(csid, hdr), ..st }, bytes))
    }
}

/// Whether every payload of a list shares the given type id, stream id and
/// data length.
pub open spec fn same_shape(ps: Seq<PayloadView>, type_id: u8, stream_id: u32, len: nat) -> bool {
    forall|i: int|
        0 <= i < ps.len() ==> (#[trigger] ps[i]).type_id == type_id && ps[i].stream_id == stream_id
            && ps[i].data.len() == len
}

/// The first-chunk formats a serializer picks for a list of payloads sent one
/// after the other, without forcing.
pub open spec fn spec_formats_of_run(st: SerState, ps: Seq<PayloadView>) -> Seq<ChunkHeaderFormat>
    decreases ps.len(),
{
    if ps.len() == 0 {
        Seq::empty()
    } else {
        seq![spec_chosen_format(st, ps[0], false).0] + spec_formats_of_run(
            SerState {
                headers: st.headers.insert(
                    spec_csid_for_message_type(ps[0].type_id),
                    spec_cached_header(st, ps[0], false),
                ),
                ..st
            },
            ps.drop_first(),
        )
    }
}

/// Once the chunk stream's cached header carries the shared stream id, type
/// id and length, every further message of that shape is sent compressed:
/// only the delta formats appear, never a Full header and never one
/// repeating the length and type.
pub proof fn lemma_formats_stay_compressed(
    st: SerState,
    ps: Seq<PayloadView>,
    type_id: u8,
    stream_id: u32,
    len: nat,
)
    requires
        same_shape(ps, type_id, stream_id, len),
        len <= MAX_INITIAL_TIMESTAMP,
        st.headers.contains_key(spec_csid_for_message_type(type_id)),
        st.headers[spec_csid_for_message_type(type_id)].message_stream_id == stream_id,
        st.headers[spec_csid_for_message_type(type_id)].message_type_id == type_id,
        st.headers[spec_csid_for_message_type(type_id)].message_length == len,
    ensures
        forall|i: int|
            0 <= i < ps.len() ==> (#[trigger] spec_formats_of_run(st, ps)[i])
                == ChunkHeaderFormat::TimeDeltaOnly || spec_formats_of_run(st, ps)[i]
                == ChunkHeaderFormat::Empty,
        spec_formats_of_run(st, ps).len() == ps.len(),
    decreases ps.len(),
{
    if ps.len() > 0 {
        let csid = spec_csid_for_message_type(type_id);
        let st2 = SerState {
            headers: st.headers.insert(csid, spec_cached_header(st, ps[0], false)),
            ..st
        };
        assert(forall|i: int|
            0 <= i < ps.drop_first().len() ==> #[trigger] ps.drop_first()[i] == ps[i + 1]);
        lemma_formats_stay_compressed(st2, ps.drop_first(), type_id, stream_id, len);
        assert(forall|i: int|
            0 < i < ps.len() ==> #[trigger] spec_formats_of_run(st, ps)[i] == spec_formats_of_run(
                st2,
                ps.drop_first(),
            )[i - 1]);
    }
}

/// Header compression is monotone: a run of messages sharing stream id, type
/// id and length on a chunk stream with no cached header starts with exactly
/// one Full chunk, and every later message is sent in a delta-only or empty
/// format, never regressing to a Full header.
pub proof fn lemma_header_compression_monotonic(
    st: SerState,
    ps: Seq<PayloadView>,
    type_id: u8,
    stream_id: u32,
    len: nat,
)
    requires
        ps.len() > 0,
        same_shape(ps, type_id, stream_id, len),
        len <= MAX_INITIAL_TIMESTAMP,
        !st.headers.contains_key(spec_csid_for_message_type(type_id)),
    ensures
        spec_formats_of_run(st, ps).len() == ps.len(),
        spec_formats_of_run(st, ps)[0] == ChunkHeaderFormat::Full,
        forall|i: int|
            0 < i < ps.len() ==> (#[trigger] spec_formats_of_run(st, ps)[i])
                == ChunkHeaderFormat::TimeDeltaOnly || spec_formats_of_run(st, ps)[i]
                == ChunkHeaderFormat::Empty,
{
    let csid = spec_csid_for_message_type(type_id);
    let st2 = SerState {
        headers: st.headers.insert(csid, spec_cached_header(st, ps[0], false)),
        ..st
    };
    assert(forall|i: int|
        0 <= i < ps.drop_first().len() ==> #[trigger] ps.drop_first()[i] == ps[i + 1]);
    lemma_formats_stay_compressed(st2, ps.drop_first(), type_id, stream_id, len);
    assert(forall|i: int|
        0 < i < ps.len() ==> #[trigger] spec_formats_of_run(st, ps)[i] == spec_formats_of_run(
            st2,
            ps.drop_first(),
        )[i - 1]);
}

/// Serializes message payloads into bytes holding RTMP chunks.  Every
/// operation mutates the serializer, because the chunking protocol
/// compresses headers against previously sent chunks: the same serializer
/// must produce all bytes sent to one peer, in order.
pub struct Serializer {
    previous_headers: std::collections::HashMap<u32, ChunkHeader>,
    max_chunk_size: u32,
}

impl View for Serializer {
    type V = SerState;

    closed spec fn view(&self) -> SerState {
        SerState { headers: self.previous_headers@, max_chunk_size: self.max_chunk_size }
    }
}

impl Serializer {
    /// A serializer with no cached headers and the protocol's initial
    /// maximum chunk size of 128.
    pub fn new() -> (r: Serializer)
        ensures
            r@ == (SerState { headers: Map::empty(), max_chunk_size: 128 }),
    {
        let r = Serializer {
            previous_headers: std::collections::HashMap::new(),
            max_chunk_size: 128,
        };
        proof {
            assert(r@ =~~= (SerState { headers: Map::empty(), max_chunk_size: 128 }));
        }
        r
    }

    /// Announces the maximum chunk size this peer will use from now on.
    pub fn set_max_chunk_size(&mut self, max_chunk_size: u32)
        ensures
            final(self)@ == (SerState { max_chunk_size: max_chunk_size, ..old(self)@ }),
    {
        self.max_chunk_size = max_chunk_size;
        proof {
            assert(self@ =~~= (SerState { max_chunk_size: max_chunk_size, ..old(self)@ }));
        }
    }

    /// Serializes one message into chunks, exactly as `spec_serialize` says:
    /// a header compressed against the chunk stream's cached previous header
    /// unless `force_uncompressed` asks for a Full one, the payload split by
    /// the maximum chunk size, and the cache updated.  Fails exactly when
    /// the payload is 2^24 bytes or more, leaving the serializer unchanged.
    #[verifier::rlimit(100)]
    pub fn serialize(&mut self, message: &MessagePayload, force_uncompressed: bool) -> (r: Result<
        Vec<u8>,
        SerializationError,
    >)
        ensures
            match spec_serialize(old(self)@, message@, force_uncompressed) {
                Ok((st, bytes)) => r matches Ok(v) && v@ == bytes && final(self)@ == st,
                Err(e) => r == Err::<Vec<u8>, SerializationError>(e) && final(self)@ == old(
                    self,
                )@,
            },
    {
        if message.data.len() > MAX_INITIAL_TIMESTAMP as usize {
            return Err(SerializationError::MessageTooLong);
        }
        let csid = get_csid_for_message_type(message.type_id);
        let mut header = ChunkHeader {
            chunk_stream_id: csid,
            timestamp: message.timestamp,
            timestamp_delta: 0,
            message_length: message.data.len() as u32,
            message_type_id: message.type_id,
            message_stream_id: message.stream_id,
        };
        let format = if force_uncompressed {
            ChunkHeaderFormat::Full
        } else {
            match self.previous_headers.get(&csid) {
                None => ChunkHeaderFormat::Full,
                Some(previous_header) => get_header_format(&mut header, previous_header),
            }
        };
        let ghost chosen_delta = header.timestamp_delta;
        let mut bytes: Vec<u8> = Vec::new();
        add_basic_header(&mut bytes, format, csid);
        add_initial_timestamp(&mut bytes, format, header.timestamp, header.timestamp_delta);
        add_message_length_and_type_id(
            &mut bytes,
            format,
            header.message_length,
            header.message_type_id,
        );
        add_message_stream_id(&mut bytes, format, header.message_stream_id);
        add_extended_timestamp(&mut bytes, format, header.timestamp, header.timestamp_delta);
        let first_end: usize = if self.max_chunk_size == 0 || message.data.len()
            <= self.max_chunk_size as usize {
            message.data.len()
        } else {
            self.max_chunk_size as usize
        };
        add_message_payload(&mut bytes, &message.data, 0, first_end);
        let ghost base_len = bytes@.len();
        let ghost whole = match spec_serialize(old(self)@, message@, force_uncompressed) {
            Ok((st, b)) => b,
            Err(_) => Seq::empty(),
        };
        proof {
            assert(whole =~= bytes@ + spec_continuations(
                csid,
                message@.data,
                first_end as int,
                self.max_chunk_size,
            ));
        }
        let mut position: usize = first_end;
        while position < message.data.len()
            invariant
                position <= message.data.len(),
                self == old(self),
                csid == spec_csid_for_message_type(message@.type_id),
                whole == bytes@ + spec_continuations(
                    csid,
                    message@.data,
                    position as int,
                    self.max_chunk_size,
                ),
                position < message.data.len() ==> self.max_chunk_size >= 1,
            decreases message.data.len() - position,
        {
            let end: usize = if message.data.len() - position <= self.max_chunk_size as usize {
                message.data.len()
            } else {
                position + self.max_chunk_size as usize
            };
            let ghost before = bytes@;
            add_basic_header(&mut bytes, ChunkHeaderFormat::Empty, csid);
            add_message_payload(&mut bytes, &message.data, position, end);
            proof {
                assert(bytes@ =~= before + (spec_basic_header(ChunkHeaderFormat::Empty, csid)
                    + message@.data.subrange(position as int, end as int)));
                assert(whole =~= bytes@ + spec_continuations(
                    csid,
                    message@.data,
                    end as int,
                    self.max_chunk_size,
                ));
            }
            position = end;
        }
        self.previous_headers.insert(csid, header);
        proof {
            assert(spec_continuations(
                csid,
                message@.data,
                message@.data.len() as int,
                self.max_chunk_size,
            ) =~= Seq::<u8>::empty());
            assert(bytes@ =~= whole);
            match spec_serialize(old(self)@, message@, force_uncompressed) {
                Ok((st, b)) => {
                    assert(self@ =~~= st);
                },
                Err(_) => {},
            }
        }
        Ok(bytes)
    }
}

/// The chunk stream a message type is sent on.
fn get_csid_for_message_type(message_type_id: u8) -> (r: u32)
    ensures
        r == spec_csid_for_message_type(message_type_id),
{
    if 1 <= message_type_id && message_type_id <= 6 {
        2
    } else if message_type_id == 18 || message_type_id == 19 {
        3
    } else if message_type_id == 9 {
        4
    } else if message_type_id == 8 {
        5
    } else {
        6
    }
}

/// Picks the most compressed format the cached previous header admits, and
/// records the timestamp delta it carries on the header.
fn get_header_format(current_header: &mut ChunkHeader, previous_header: &ChunkHeader) -> (r:
    ChunkHeaderFormat)
    ensures
        (r, final(current_header).timestamp_delta) == spec_choose_format(
            *previous_header,
            *old(current_header),
        ),
        *final(current_header) == (ChunkHeader {
            timestamp_delta: final(current_header).timestamp_delta,
            ..*old(current_header)
        }),
{
    if current_header.message_stream_id != previous_header.message_stream_id {
        current_header.timestamp_delta = 0;
        return ChunkHeaderFormat::Full;
    }
    let delta = sub_values(
        current_header.timestamp.value,
        previous_header.timestamp.value,
    );
    current_header.timestamp_delta = delta;
    if current_header.message_type_id != previous_header.message_type_id
        || current_header.message_length != previous_header.message_length {
        return ChunkHeaderFormat::TimeDeltaWithoutMessageStreamId;
    }
    if delta != previous_header.timestamp_delta {
        return ChunkHeaderFormat::TimeDeltaOnly;
    }
    ChunkHeaderFormat::Empty
}

/// Appends the basic header for a chunk of the given format and stream.
fn add_basic_header(bytes: &mut Vec<u8>, format: ChunkHeaderFormat, csid: u32)
    requires
        2 <= csid <= 65599,
    ensures
        final(bytes)@ == old(bytes)@ + spec_basic_header(format, csid),
{
    let format_bits: u8 = match format {
        ChunkHeaderFormat::Full => 0x00,
        ChunkHeaderFormat::TimeDeltaWithoutMessageStreamId => 0x40,
        ChunkHeaderFormat::TimeDeltaOnly => 0x80,
        ChunkHeaderFormat::Empty => 0xC0,
    };
    if csid <= 63 {
        bytes.push(format_bits + csid as u8);
    } else if csid <= 319 {
        bytes.push(format_bits);
        bytes.push((csid - 64) as u8);
    } else {
        bytes.push(format_bits + 1);
        bytes.push(((csid - 64) % 0x100) as u8);
        bytes.push(((csid - 64) / 0x100) as u8);
    }
    proof {
        assert(bytes@ =~= old(bytes)@ + spec_basic_header(format, csid));
    }
}

/// Appends the 3-byte timestamp or delta field, clamped to its capacity.
fn add_initial_timestamp(
    bytes: &mut Vec<u8>,
    format: ChunkHeaderFormat,
    timestamp: RtmpTimestamp,
    delta: u32,
)
    ensures
        final(bytes)@ == old(bytes)@ + (match format {
            ChunkHeaderFormat::Full => u24_be_bytes(spec_clamped(timestamp.value)),
            ChunkHeaderFormat::TimeDeltaWithoutMessageStreamId => u24_be_bytes(spec_clamped(delta)),
            ChunkHeaderFormat::TimeDeltaOnly => u24_be_bytes(spec_clamped(delta)),
            ChunkHeaderFormat::Empty => Seq::<u8>::empty(),
        }),
{
    if format == ChunkHeaderFormat::Empty {
        proof {
            assert(bytes@ =~= old(bytes)@ + Seq::<u8>::empty());
        }
        return ;
    }
    let value = if format == ChunkHeaderFormat::Full {
        timestamp.value
    } else {
        delta
    };
    let clamped = if value < MAX_INITIAL_TIMESTAMP {
        value
    } else {
        MAX_INITIAL_TIMESTAMP
    };
    write_u24_be(bytes, clamped);
}

/// Appends the 3-byte message length and 1-byte type id of the two fullest
/// formats.
fn add_message_length_and_type_id(
    bytes: &mut Vec<u8>,
    format: ChunkHeaderFormat,
    length: u32,
    type_id: u8,
)
    requires
        length <= MAX_INITIAL_TIMESTAMP,
    ensures
        final(bytes)@ == old(bytes)@ + (match format {
            ChunkHeaderFormat::Full => u24_be_bytes(length) + seq![type_id],
            ChunkHeaderFormat::TimeDeltaWithoutMessageStreamId => u24_be_bytes(length) + seq![
                type_id,
            ],
            ChunkHeaderFormat::TimeDeltaOnly => Seq::<u8>::empty(),
            ChunkHeaderFormat::Empty => Seq::<u8>::empty(),
        }),
{
    if format == ChunkHeaderFormat::Empty || format == ChunkHeaderFormat::TimeDeltaOnly {
        proof {
            assert(bytes@ =~= old(bytes)@ + Seq::<u8>::empty());
        }
        return ;
    }
    write_u24_be(bytes, length);
    bytes.push(type_id);
    proof {
        assert(bytes@ =~= old(bytes)@ + (u24_be_bytes(length) + seq![type_id]));
    }
}

/// Appends the 4-byte little-endian message stream id of a Full header.
fn add_message_stream_id(bytes: &mut Vec<u8>, format: ChunkHeaderFormat, stream_id: u32)
    ensures
        final(bytes)@ == old(bytes)@ + (if format == ChunkHeaderFormat::Full {
            u32_le_bytes(stream_id)
        } else {
            Seq::<u8>::empty()
        }),
{
    if format != ChunkHeaderFormat::Full {
        proof {
            assert(bytes@ =~= old(bytes)@ + Seq::<u8>::empty());
        }
        return ;
    }
    write_u32_le(bytes, stream_id);
}

/// Appends the 4-byte extended timestamp when the 3-byte field overflowed.
fn add_extended_timestamp(
    bytes: &mut Vec<u8>,
    format: ChunkHeaderFormat,
    timestamp: RtmpTimestamp,
    delta: u32,
)
    ensures
        final(bytes)@ == old(bytes)@ + (match format {
            ChunkHeaderFormat::Full => spec_extended_field(timestamp.value),
            ChunkHeaderFormat::TimeDeltaWithoutMessageStreamId => spec_extended_field(delta),
            ChunkHeaderFormat::TimeDeltaOnly => spec_extended_field(delta),
            ChunkHeaderFormat::Empty => Seq::<u8>::empty(),
        }),
{
    if format == ChunkHeaderFormat::Empty {
        proof {
            assert(bytes@ =~= old(bytes)@ + Seq::<u8>::empty());
        }
        return ;
    }
    let value = if format == ChunkHeaderFormat::Full {
        timestamp.value
    } else {
        delta
    };
    if value < MAX_INITIAL_TIMESTAMP {
        proof {
            assert(bytes@ =~= old(bytes)@ + Seq::<u8>::empty());
        }
        return ;
    }
    write_u32_be(bytes, value);
}

/// Appends the payload bytes between `from` and `to`.
fn add_message_payload(bytes: &mut Vec<u8>, data: &Vec<u8>, from: usize, to: usize)
    requires
        from <= to <= data.len(),
    ensures
        final(bytes)@ == old(bytes)@ + data@.subrange(from as int, to as int),
{
    append_range(bytes, data, from, to);
}

} // verus!
