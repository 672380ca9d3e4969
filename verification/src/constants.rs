//! Limits shared by the whole engine.

use vstd::prelude::*;

verus! {

/// The largest number of pools one epoch can hold, and the capacity of the
/// per-pool weight snapshot kept in an epoch's result.
pub const MAX_POOLS_PER_INIT: u8 = 10;

} // verus!
