//! Big- and little-endian integer fields of the wire formats.
//!
//! Every multi-byte integer in the chunk and AMF0 formats is big-endian except
//! the message stream id, which is the protocol's sole little-endian field.

use vstd::prelude::*;

verus! {

/// The value of a 2-byte big-endian field.
pub open spec fn be_u16_of(s: Seq<u8>) -> int {
    s[0] * 0x100 + s[1]
}

/// The value of a 3-byte big-endian field.
pub open spec fn be_u24_of(s: Seq<u8>) -> int {
    s[0] * 0x10000 + s[1] * 0x100 + s[2]
}

/// The value of a 4-byte big-endian field.
pub open spec fn be_u32_of(s: Seq<u8>) -> int {
    s[0] * 0x1000000 + s[1] * 0x10000 + s[2] * 0x100 + s[3]
}

/// The value of a 4-byte little-endian field.
pub open spec fn le_u32_of(s: Seq<u8>) -> int {
    s[3] * 0x1000000 + s[2] * 0x10000 + s[1] * 0x100 + s[0]
}

/// The value of an 8-byte big-endian field.
pub open spec fn be_u64_of(s: Seq<u8>) -> int {
    be_u32_of(s) * 0x100000000 + be_u32_of(s.skip(4))
}

/// The 2-byte big-endian encoding of a value.
pub open spec fn u16_be_bytes(v: u16) -> Seq<u8> {
    seq![(v / 0x100) as u8, (v % 0x100) as u8]
}

/// The 3-byte big-endian encoding of a value below 2^24.
pub open spec fn u24_be_bytes(v: u32) -> Seq<u8> {
    seq![(v / 0x10000 % 0x100) as u8, (v / 0x100 % 0x100) as u8, (v % 0x100) as u8]
}

/// The 4-byte big-endian encoding of a value.
pub open spec fn u32_be_bytes(v: u32) -> Seq<u8> {
    seq![
        (v / 0x1000000 % 0x100) as u8,
        (v / 0x10000 % 0x100) as u8,
        (v / 0x100 % 0x100) as u8,
        (v % 0x100) as u8,
    ]
}

/// The 4-byte little-endian encoding of a value.
pub open spec fn u32_le_bytes(v: u32) -> Seq<u8> {
    seq![
        (v % 0x100) as u8,
        (v / 0x100 % 0x100) as u8,
        (v / 0x10000 % 0x100) as u8,
        (v / 0x1000000 % 0x100) as u8,
    ]
}

/// The 8-byte big-endian encoding of a value.
pub open spec fn u64_be_bytes(v: u64) -> Seq<u8> {
    u32_be_bytes((v / 0x100000000) as u32) + u32_be_bytes((v % 0x100000000) as u32)
}

/// Reading back a 2-byte big-endian encoding yields the encoded value.
pub proof fn lemma_u16_be_round_trip(v: u16)
    ensures
        u16_be_bytes(v).len() == 2,
        be_u16_of(u16_be_bytes(v)) == v,
{
    assert((v / 0x100) * 0x100 + v % 0x100 == v) by (bit_vector);
}

/// Reading back a 3-byte big-endian encoding yields the encoded value.
pub proof fn lemma_u24_be_round_trip(v: u32)
    requires
        v <= 0xFFFFFF,
    ensures
        u24_be_bytes(v).len() == 3,
        be_u24_of(u24_be_bytes(v)) == v,
{
    assert((v / 0x10000 % 0x100) * 0x10000 + (v / 0x100 % 0x100) * 0x100 + v % 0x100 == v)
        by (bit_vector)
        requires
            v <= 0xFFFFFF,
    ;
}

/// Reading back a 4-byte big-endian encoding yields the encoded value.
pub proof fn lemma_u32_be_round_trip(v: u32)
    ensures
        u32_be_bytes(v).len() == 4,
        be_u32_of(u32_be_bytes(v)) == v,
{
    assert((v / 0x1000000 % 0x100) * 0x1000000 + (v / 0x10000 % 0x100) * 0x10000 + (v / 0x100
        % 0x100) * 0x100 + v % 0x100 == v) by (bit_vector);
}

/// Reading back a 4-byte little-endian encoding yields the encoded value.
pub proof fn lemma_u32_le_round_trip(v: u32)
    ensures
        u32_le_bytes(v).len() == 4,
        le_u32_of(u32_le_bytes(v)) == v,
{
    assert((v / 0x1000000 % 0x100) * 0x1000000 + (v / 0x10000 % 0x100) * 0x10000 + (v / 0x100
        % 0x100) * 0x100 + v % 0x100 == v) by (bit_vector);
}

/// Reading back an 8-byte big-endian encoding yields the encoded value.
pub proof fn lemma_u64_be_round_trip(v: u64)
    ensures
        u64_be_bytes(v).len() == 8,
        be_u64_of(u64_be_bytes(v)) == v,
{
    let hi = (v / 0x100000000) as u32;
    let lo = (v % 0x100000000) as u32;
    lemma_u32_be_round_trip(hi);
    lemma_u32_be_round_trip(lo);
    assert(u64_be_bytes(v).skip(4) =~= u32_be_bytes(lo));
    assert(be_u32_of(u64_be_bytes(v)) == hi) by {
        assert(u64_be_bytes(v)[0] == u32_be_bytes(hi)[0]);
        assert(u64_be_bytes(v)[1] == u32_be_bytes(hi)[1]);
        assert(u64_be_bytes(v)[2] == u32_be_bytes(hi)[2]);
        assert(u64_be_bytes(v)[3] == u32_be_bytes(hi)[3]);
    }
    assert(hi * 0x100000000 + lo == v) by (bit_vector)
        requires
            hi == (v / 0x100000000) as u32,
            lo == (v % 0x100000000) as u32,
    ;
}

/// Reads the 2-byte big-endian field at `pos`.
pub fn read_u16_be(bytes: &Vec<u8>, pos: usize) -> (r: u16)
    requires
        pos + 2 <= bytes.len(),
    ensures
        r == be_u16_of(bytes@.subrange(pos as int, pos + 2)),
{
    bytes[pos] as u16 * 0x100 + bytes[pos + 1] as u16
}

/// Reads the 3-byte big-endian field at `pos`.
pub fn read_u24_be(bytes: &Vec<u8>, pos: usize) -> (r: u32)
    requires
        pos + 3 <= bytes.len(),
    ensures
        r == be_u24_of(bytes@.subrange(pos as int, pos + 3)),
        r <= 0xFFFFFF,
{
    bytes[pos] as u32 * 0x10000 + bytes[pos + 1] as u32 * 0x100 + bytes[pos + 2] as u32
}

/// Reads the 4-byte big-endian field at `pos`.
pub fn read_u32_be(bytes: &Vec<u8>, pos: usize) -> (r: u32)
    requires
        pos + 4 <= bytes.len(),
    ensures
        r == be_u32_of(bytes@.subrange(pos as int, pos + 4)),
{
    bytes[pos] as u32 * 0x1000000 + bytes[pos + 1] as u32 * 0x10000 + bytes[pos + 2] as u32 * 0x100
        + bytes[pos + 3] as u32
}

/// Reads the 4-byte little-endian field at `pos`.
pub fn read_u32_le(bytes: &Vec<u8>, pos: usize) -> (r: u32)
    requires
        pos + 4 <= bytes.len(),
    ensures
        r == le_u32_of(bytes@.subrange(pos as int, pos + 4)),
{
    bytes[pos + 3] as u32 * 0x1000000 + bytes[pos + 2] as u32 * 0x10000 + bytes[pos + 1] as u32
        * 0x100 + bytes[pos] as u32
}

/// Reads the 8-byte big-endian field at `pos`.
pub fn read_u64_be(bytes: &Vec<u8>, pos: usize) -> (r: u64)
    requires
        pos + 8 <= bytes.len(),
    ensures
        r == be_u64_of(bytes@.subrange(pos as int, pos + 8)),
{
    let hi = read_u32_be(bytes, pos);
    let lo = read_u32_be(bytes, pos + 4);
    proof {
        assert(bytes@.subrange(pos + 4, pos + 8) =~= bytes@.subrange(pos as int, pos + 8).skip(4));
        assert(bytes@.subrange(pos as int, pos + 4)[0] == bytes@.subrange(pos as int, pos + 8)[0]);
        assert(bytes@.subrange(pos as int, pos + 4)[1] == bytes@.subrange(pos as int, pos + 8)[1]);
        assert(bytes@.subrange(pos as int, pos + 4)[2] == bytes@.subrange(pos as int, pos + 8)[2]);
        assert(bytes@.subrange(pos as int, pos + 4)[3] == bytes@.subrange(pos as int, pos + 8)[3]);
        assert(hi * 0x100000000 + lo <= 0xFFFFFFFFFFFFFFFF) by (nonlinear_arith)
            requires
                hi <= 0xFFFFFFFF && lo <= 0xFFFFFFFF,
        ;
    }
    hi as u64 * 0x100000000 + lo as u64
}

/// Appends the 2-byte big-endian encoding of `value`.
pub fn write_u16_be(bytes: &mut Vec<u8>, value: u16)
    ensures
        final(bytes)@ == old(bytes)@ + u16_be_bytes(value),
{
    bytes.push((value / 0x100) as u8);
    bytes.push((value % 0x100) as u8);
    proof {
        assert(bytes@ =~= old(bytes)@ + u16_be_bytes(value));
    }
}

/// Appends the 3-byte big-endian encoding of `value`, which must fit the
/// field.
pub fn write_u24_be(bytes: &mut Vec<u8>, value: u32)
    requires
        value <= 0xFFFFFF,
    ensures
        final(bytes)@ == old(bytes)@ + u24_be_bytes(value),
{
    bytes.push((value / 0x10000 % 0x100) as u8);
    bytes.push((value / 0x100 % 0x100) as u8);
    bytes.push((value % 0x100) as u8);
    proof {
        assert(bytes@ =~= old(bytes)@ + u24_be_bytes(value));
    }
}

/// Appends the 4-byte big-endian encoding of `value`.
pub fn write_u32_be(bytes: &mut Vec<u8>, value: u32)
    ensures
        final(bytes)@ == old(bytes)@ + u32_be_bytes(value),
{
    bytes.push((value / 0x1000000 % 0x100) as u8);
    bytes.push((value / 0x10000 % 0x100) as u8);
    bytes.push((value / 0x100 % 0x100) as u8);
    bytes.push((value % 0x100) as u8);
    proof {
        assert(bytes@ =~= old(bytes)@ + u32_be_bytes(value));
    }
}

/// Appends the 4-byte little-endian encoding of `value`.
pub fn write_u32_le(bytes: &mut Vec<u8>, value: u32)
    ensures
        final(bytes)@ == old(bytes)@ + u32_le_bytes(value),
{
    bytes.push((value % 0x100) as u8);
    bytes.push((value / 0x100 % 0x100) as u8);
    bytes.push((value / 0x10000 % 0x100) as u8);
    bytes.push((value / 0x1000000 % 0x100) as u8);
    proof {
        assert(bytes@ =~= old(bytes)@ + u32_le_bytes(value));
    }
}

/// Appends every byte of `src` to `dst` in order.
pub fn append_bytes(dst: &mut Vec<u8>, src: &Vec<u8>)
    ensures
        final(dst)@ == old(dst)@ + src@,
{
    let mut i: usize = 0;
    while i < src.len()
        invariant
            i <= src.len(),
            dst@ == old(dst)@ + src@.subrange(0, i as int),
        decreases src.len() - i,
    {
        dst.push(src[i]);
        i = i + 1;
        proof {
            assert(dst@ =~= old(dst)@ + src@.subrange(0, i as int));
        }
    }
    proof {
        assert(dst@ =~= old(dst)@ + src@);
    }
}

/// Appends the bytes of `src` between `from` and `to` to `dst`, in order.
pub fn append_range(dst: &mut Vec<u8>, src: &Vec<u8>, from: usize, to: usize)
    requires
        from <= to <= src.len(),
    ensures
        final(dst)@ == old(dst)@ + src@.subrange(from as int, to as int),
{
    let mut i: usize = from;
    while i < to
        invariant
            from <= i <= to <= src.len(),
            dst@ == old(dst)@ + src@.subrange(from as int, i as int),
        decreases to - i,
    {
        dst.push(src[i]);
        i = i + 1;
        proof {
            assert(dst@ =~= old(dst)@ + src@.subrange(from as int, i as int));
        }
    }
    proof {
        assert(dst@ =~= old(dst)@ + src@.subrange(from as int, to as int));
    }
}

/// Appends the 8-byte big-endian encoding of `value`.
pub fn write_u64_be(bytes: &mut Vec<u8>, value: u64)
    ensures
        final(bytes)@ == old(bytes)@ + u64_be_bytes(value),
{
    write_u32_be(bytes, (value / 0x100000000) as u32);
    write_u32_be(bytes, (value % 0x100000000) as u32);
    proof {
        assert(bytes@ =~= old(bytes)@ + u64_be_bytes(value));
    }
}

} // verus!
