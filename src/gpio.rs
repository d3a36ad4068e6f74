//! GPIO pin directions.

use vstd::prelude::*;

verus! {

/// A GPIO direction.
#[derive(Debug, Clone, Copy, PartialEq, Eq, Structural)]
pub enum Direction {
    /// The GPIO is used as digital input.
    Read,
    /// The GPIO is used as digital output.
    Write,
}

impl Direction {
    /// The code the hardware layer uses for the direction: 0 for input,
    /// 1 for output.
    pub fn code(&self) -> (r: u8)
        ensures
            r == (match *self {
                Direction::Read => 0u8,
                Direction::Write => 1u8,
            }),
    {
        match self {
            Direction::Read => 0,
            Direction::Write => 1,
        }
    }
}

} // verus!
