//! Clock readings as packets carry them.
use vstd::prelude::*;

verus! {

/// The number of microseconds since the Unix epoch as a packet carries it: its lowest 64 bits.
pub open spec fn timestamp_of(micros: u128) -> u64 {
    (micros % 0x1_0000_0000_0000_0000) as u64
}

/// Cuts a clock reading down to what a packet carries.
pub fn timestamp_us(micros: u128) -> (timestamp: u64)
    ensures
        timestamp == timestamp_of(micros),
        micros <= u64::MAX ==> timestamp == micros,
{
    (micros % 0x1_0000_0000_0000_0000) as u64
}

/// A clock reading that fits in 64 bits is carried as it is. A longer one loses its higher bits and
/// nothing else: readings that lie 2 to the power of 64 apart look alike.
pub proof fn clock_reading_is_carried_whole(micros: u128)
    ensures
        micros <= u64::MAX ==> timestamp_of(micros) == micros,
        micros + 0x1_0000_0000_0000_0000 <= u128::MAX ==> timestamp_of(
            (micros + 0x1_0000_0000_0000_0000) as u128,
        ) == timestamp_of(micros),
{
}

} // verus!
