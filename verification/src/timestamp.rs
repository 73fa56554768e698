//! RTMP timestamps: 32-bit millisecond counters with wrap-around arithmetic.
//!
//! Addition and subtraction wrap silently modulo 2^32.  Ordering treats the
//! wrapped difference `a - b` as a signed delta: two timestamps within
//! 2^31 - 1 milliseconds of each other compare in the usual way, anything
//! further apart is taken to have wrapped, so the order reverses.

use vstd::prelude::*;

verus! {

/// The largest distance at which two timestamps are still adjacent.
pub const MAX_ADJACENT_VALUE: u32 = 2147483647;

pub const U32_MODULUS: u64 = 4294967296;

/// The wrapped sum of two timestamp values.
pub open spec fn spec_add_values(value1: u32, value2: u32) -> u32 {
    ((value1 + value2) % (U32_MODULUS as int)) as u32
}

/// The wrapped difference of two timestamp values.
pub open spec fn spec_sub_values(value1: u32, value2: u32) -> u32 {
    ((value1 - value2) % (U32_MODULUS as int)) as u32
}

/// The ordering rule on timestamp values: the wrapped difference `d` of the
/// two values decides; `d == 0` means equal, a difference within
/// `MAX_ADJACENT_VALUE` means the first is ahead, and anything larger means
/// the first has wrapped behind the second.
pub open spec fn spec_compare(value1: u32, value2: u32) -> core::cmp::Ordering {
    let d = spec_sub_values(value1, value2);
    if d == 0 {
        core::cmp::Ordering::Equal
    } else if d <= MAX_ADJACENT_VALUE {
        core::cmp::Ordering::Greater
    } else {
        core::cmp::Ordering::Less
    }
}

/// Adds two timestamp values, wrapping on overflow.
pub fn add_values(value1: u32, value2: u32) -> (r: u32)
    ensures
        r == spec_add_values(value1, value2),
{
    value1.wrapping_add(value2)
}

/// Subtracts the second timestamp value from the first, wrapping on underflow.
pub fn sub_values(value1: u32, value2: u32) -> (r: u32)
    ensures
        r == spec_sub_values(value1, value2),
{
    value1.wrapping_sub(value2)
}

/// Orders two timestamp values by the wrap-aware rule of `spec_compare`.
pub fn compare(value1: &u32, value2: &u32) -> (r: core::cmp::Ordering)
    ensures
        r == spec_compare(*value1, *value2),
{
    let difference = value1.wrapping_sub(*value2);
    if difference == 0 {
        core::cmp::Ordering::Equal
    } else if difference <= MAX_ADJACENT_VALUE {
        core::cmp::Ordering::Greater
    } else {
        core::cmp::Ordering::Less
    }
}

/// A 32-bit RTMP timestamp with wrap-around arithmetic and ordering.
#[derive(Eq, PartialEq, Structural, Debug, Copy, Clone, Hash)]
pub struct RtmpTimestamp {
    pub value: u32,
}

impl RtmpTimestamp {
    /// Wraps a raw millisecond count as a timestamp.
    pub fn new(initial_value: u32) -> (r: Self)
        ensures
            r.value == initial_value,
    {
        RtmpTimestamp { value: initial_value }
    }

    /// Replaces the stored millisecond count.
    pub fn set(&mut self, new_value: u32)
        ensures
            final(self).value == new_value,
    {
        self.value = new_value;
    }
}

impl core::ops::Add<RtmpTimestamp> for RtmpTimestamp {
    type Output = RtmpTimestamp;

    fn add(self, other: RtmpTimestamp) -> (r: RtmpTimestamp)
        ensures
            r.value == spec_add_values(self.value, other.value),
    {
        RtmpTimestamp { value: add_values(self.value, other.value) }
    }
}

impl vstd::std_specs::ops::AddSpecImpl<RtmpTimestamp> for RtmpTimestamp {
    open spec fn obeys_add_spec() -> bool {
        true
    }

    open spec fn add_req(self, rhs: RtmpTimestamp) -> bool {
        true
    }

    open spec fn add_spec(self, rhs: RtmpTimestamp) -> RtmpTimestamp {
        RtmpTimestamp { value: spec_add_values(self.value, rhs.value) }
    }
}

impl core::ops::Add<u32> for RtmpTimestamp {
    type Output = RtmpTimestamp;

    fn add(self, other: u32) -> (r: RtmpTimestamp)
        ensures
            r.value == spec_add_values(self.value, other),
    {
        RtmpTimestamp { value: add_values(self.value, other) }
    }
}

impl vstd::std_specs::ops::AddSpecImpl<u32> for RtmpTimestamp {
    open spec fn obeys_add_spec() -> bool {
        true
    }

    open spec fn add_req(self, rhs: u32) -> bool {
        true
    }

    open spec fn add_spec(self, rhs: u32) -> RtmpTimestamp {
        RtmpTimestamp { value: spec_add_values(self.value, rhs) }
    }
}

impl core::ops::Sub<RtmpTimestamp> for RtmpTimestamp {
    type Output = RtmpTimestamp;

    fn sub(self, other: RtmpTimestamp) -> (r: RtmpTimestamp)
        ensures
            r.value == spec_sub_values(self.value, other.value),
    {
        RtmpTimestamp { value: sub_values(self.value, other.value) }
    }
}

impl vstd::std_specs::ops::SubSpecImpl<RtmpTimestamp> for RtmpTimestamp {
    open spec fn obeys_sub_spec() -> bool {
        true
    }

    open spec fn sub_req(self, rhs: RtmpTimestamp) -> bool {
        true
    }

    open spec fn sub_spec(self, rhs: RtmpTimestamp) -> RtmpTimestamp {
        RtmpTimestamp { value: spec_sub_values(self.value, rhs.value) }
    }
}

impl core::ops::Sub<u32> for RtmpTimestamp {
    type Output = RtmpTimestamp;

    fn sub(self, other: u32) -> (r: RtmpTimestamp)
        ensures
            r.value == spec_sub_values(self.value, other),
    {
        RtmpTimestamp { value: sub_values(self.value, other) }
    }
}

impl vstd::std_specs::ops::SubSpecImpl<u32> for RtmpTimestamp {
    open spec fn obeys_sub_spec() -> bool {
        true
    }

    open spec fn sub_req(self, rhs: u32) -> bool {
        true
    }

    open spec fn sub_spec(self, rhs: u32) -> RtmpTimestamp {
        RtmpTimestamp { value: spec_sub_values(self.value, rhs) }
    }
}

impl PartialOrd for RtmpTimestamp {
    fn partial_cmp(&self, other: &Self) -> (r: Option<core::cmp::Ordering>)
        ensures
            r == Some(spec_compare(self.value, other.value)),
    {
        Some(compare(&self.value, &other.value))
    }
}

impl vstd::std_specs::cmp::PartialOrdSpecImpl for RtmpTimestamp {
    open spec fn obeys_partial_cmp_spec() -> bool {
        true
    }

    open spec fn partial_cmp_spec(&self, other: &Self) -> Option<core::cmp::Ordering> {
        Some(spec_compare(self.value, other.value))
    }
}

/// Two timestamps whose wrapped difference lies within the adjacency window
/// order the first at or above the second, strictly above exactly when the
/// values differ.
pub proof fn lemma_compare_within_window(a: u32, b: u32)
    requires
        spec_sub_values(a, b) <= MAX_ADJACENT_VALUE,
    ensures
        spec_compare(a, b) != core::cmp::Ordering::Less,
        (spec_compare(a, b) == core::cmp::Ordering::Greater) <==> a != b,
        (spec_compare(a, b) == core::cmp::Ordering::Equal) <==> a == b,
{
    assert(spec_sub_values(a, b) == 0 <==> a == b) by (bit_vector)
        requires
            spec_sub_values(a, b) == ((a - b) % (U32_MODULUS as int)) as u32,
    ;
}

} // verus!
