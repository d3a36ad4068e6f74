//! Conversions of a sleep interval into what the hardware layer's sleep
//! calls take.
//!
//! An interval is given as whole seconds and the nanoseconds past them.

use vstd::prelude::*;

verus! {

/// Whole microseconds in an interval of `secs` seconds and `nanos`
/// nanoseconds.
pub open spec fn interval_micros(secs: nat, nanos: nat) -> nat {
    secs * 1_000_000 + nanos / 1000
}

/// The interval in whole microseconds, or `None` where that does not fit
/// in a `u64`.
pub fn interval_as_micros(secs: u64, subsec_nanos: u32) -> (r: Option<u64>)
    ensures
        match r {
            Some(m) => m == interval_micros(secs as nat, subsec_nanos as nat),
            None => interval_micros(secs as nat, subsec_nanos as nat) > u64::MAX,
        },
{
    let total: u128 = secs as u128 * 1_000_000 + (subsec_nanos / 1000) as u128;
    if total <= u64::MAX as u128 {
        Some(total as u64)
    } else {
        None
    }
}

/// The interval split into whole milliseconds for its seconds and whole
/// microseconds for the rest, or `None` where the milliseconds do not fit in
/// a `u32`.
pub fn interval_as_millis_micros(secs: u64, subsec_nanos: u32) -> (r: Option<(u32, u32)>)
    ensures
        match r {
            Some((ms, us)) => ms == secs * 1000 && us == subsec_nanos / 1000,
            None => secs * 1000 > u32::MAX,
        },
{
    if secs > 4_294_967 {
        return None;
    }
    let ms: u32 = (secs * 1000) as u32;
    Some((ms, subsec_nanos / 1000))
}

} // verus!
