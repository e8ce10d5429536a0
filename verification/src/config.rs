//! Kernel-wide constants.

use vstd::prelude::*;

verus! {

/// Stride budget from which a task's pass is derived: `BIG_STRIDE / priority`.
pub const BIG_STRIDE: u64 = 0x1_0000_0000;

/// Least priority a task may hold.
pub const MIN_PRIORITY: u64 = 2;

/// Priority of a task that never asked for another.
pub const DEFAULT_PRIORITY: u64 = 16;

/// Bytes in one page of virtual memory.
pub const PAGE_SIZE: usize = 4096;

} // verus!
