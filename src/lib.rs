//! An early-boot bump allocator over one contiguous address range.
//!
//! Small byte allocations grow forward from the start of the range and whole
//! pages grow backward from its end; the two cursors never cross. A small
//! seeded byte hasher comes alongside.
pub mod align;
pub mod ledger;
pub mod early;
pub mod hasher;

pub use early::{AllocError, EarlyAllocator};
