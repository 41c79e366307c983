//! Timestamps as they are carried in RTMP chunks.

use vstd::prelude::*;

verus! {

/// A point in time of an RTMP stream, in milliseconds since an arbitrary epoch.
///
/// A timestamp is 32 bits wide and rolls over: one past the largest value comes zero again.
#[derive(Copy, Clone, Debug, PartialEq, Eq, Structural)]
pub struct RtmpTimestamp {
    pub value: u32,
}

impl RtmpTimestamp {
    /// The timestamp that lies `distance` milliseconds away, rolling over in either direction.
    pub open spec fn offset(self, distance: int) -> RtmpTimestamp {
        RtmpTimestamp { value: ((self.value + distance) % 0x1_0000_0000) as u32 }
    }

    /// A timestamp moves by exactly the distance, less the 4294967296 of each roll-over: it never
    /// stands still, jumps or runs backwards.
    pub proof fn law_offset_is_addition(self, distance: int)
        ensures
            0 <= self.value + distance < 4294967296 ==> self.offset(distance).value == self.value
                + distance,
            (self.offset(distance).value - self.value - distance) % 4294967296 == 0,
    {
    }

    /// Distances add up, however often a timestamp rolls over on the way.
    pub proof fn law_offsets_add_up(self, first: int, second: int)
        ensures
            self.offset(first).offset(second) == self.offset(first + second),
    {
    }

    /// The timestamp with the given value.
    pub fn new(initial_value: u32) -> (timestamp: RtmpTimestamp)
        ensures
            timestamp == (RtmpTimestamp { value: initial_value }),
    {
        RtmpTimestamp { value: initial_value }
    }

    /// Replaces the value of this timestamp.
    pub fn set(&mut self, new_value: u32)
        ensures
            *final(self) == (RtmpTimestamp { value: new_value }),
    {
        self.value = new_value;
    }
}

impl core::ops::Add<u32> for RtmpTimestamp {
    type Output = RtmpTimestamp;

    fn add(self, delta: u32) -> (sum: RtmpTimestamp)
        ensures
            self.value + delta < 4294967296 ==> sum.value == self.value + delta,
            self.value + delta >= 4294967296 ==> sum.value == self.value + delta - 4294967296,
    {
        RtmpTimestamp { value: self.value.wrapping_add(delta) }
    }
}

impl vstd::std_specs::ops::AddSpecImpl<u32> for RtmpTimestamp {
    open spec fn obeys_add_spec() -> bool {
        true
    }

    open spec fn add_req(self, delta: u32) -> bool {
        true
    }

    open spec fn add_spec(self, delta: u32) -> RtmpTimestamp {
        self.offset(delta as int)
    }
}

} // verus!
