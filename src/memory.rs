//! Size arguments for the hardware layer's allocation calls.

use vstd::prelude::*;

verus! {

/// Converts a byte size into the `u32` that the allocation calls take.
/// Sizes that do not fit are not allowed.
pub fn size_u32(size: usize) -> (r: u32)
    requires
        size <= u32::MAX,
    ensures
        r == size,
{
    size as u32
}

} // verus!
