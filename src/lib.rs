//! Safe building blocks for a dual-core microcontroller shim: a
//! fixed-capacity buffer, a cursor over slice-like storage, a truncating
//! target for formatted text, and a lock/mutex pair whose state transitions
//! are verified.
//!
//! The hardware layer itself (the spinlock, sleeping, stdio bytes, pins)
//! stays outside: what is here are the values and decisions it is driven by.

pub mod buffer;
pub mod cursor;
pub mod error;
pub mod gpio;
pub mod memory;
pub mod stdio;
pub mod storage;
pub mod sync;
pub mod thread;
