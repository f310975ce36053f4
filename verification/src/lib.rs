//! A double-ended bump allocator for early boot: byte allocations grow
//! forward from the start of one contiguous region while page allocations
//! grow backward from its end, until the two positions meet.

pub mod align;
pub mod region;

pub use region::{AllocError, EarlyAllocator};
