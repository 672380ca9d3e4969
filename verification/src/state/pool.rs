//! Pools: the buckets of one epoch that commitments go to.

use vstd::prelude::*;
use crate::constants::MAX_POOLS_PER_INIT;

verus! {

/// One pool of one epoch, with the running totals of what was committed
/// to it.
#[derive(Clone, Copy, Debug, PartialEq, Eq)]
pub struct Pool {
    pub total_positions: u64,
    /// The sum of the weights committed to the pool, in fixed point.
    pub total_weight: u64,
    pub id: u8,
    pub epoch: u64,
}

impl Pool {
    /// A pool's index names a slot of the weight snapshot.
    pub open spec fn well_formed(&self) -> bool {
        self.id < MAX_POOLS_PER_INIT
    }

    /// The pool with index `id` of epoch `epoch` before anything was
    /// committed to it.
    pub open spec fn empty(id: u8, epoch: u64) -> Pool {
        Pool { total_positions: 0, total_weight: 0, id, epoch }
    }
}

} // verus!
