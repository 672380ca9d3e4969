//! The durable record of one epoch.

use vstd::prelude::*;
use crate::constants::MAX_POOLS_PER_INIT;

verus! {

/// Where an epoch stands. The states are passed through in this order and
/// never backwards.
#[derive(Clone, Copy, Debug, PartialEq, Eq, Structural)]
pub enum EpochResultState {
    /// Commitments are accepted until the epoch's end.
    Active,
    /// Resolution has begun; the oracle has not answered yet.
    Pending,
    /// The winner is fixed; claims are paid.
    Resolved,
}

/// One epoch's record: created when the epoch starts, filled in by
/// resolution, read by every claim.
#[derive(Clone, Copy, Debug, PartialEq, Eq)]
pub struct EpochResult {
    pub epoch: u64,
    /// The winning pool's total weight: what rewards are divided by.
    pub weight: u64,
    pub total_position_amount: u64,
    pub end_at: i64,
    pub winning_pool_id: u8,
    pub epoch_result_state: EpochResultState,
    pub pool_count: u8,
    /// Each pool's total weight as it was when the epoch closed, by pool
    /// index.
    pub pool_weights: [u64; 10],
}

impl EpochResult {
    /// The declared pools fit the snapshot, and a resolved epoch's reward
    /// denominator is the snapshot entry of its winner.
    pub open spec fn well_formed(&self) -> bool {
        &&& self.pool_count <= MAX_POOLS_PER_INIT
        &&& self.epoch_result_state == EpochResultState::Resolved ==> {
            &&& self.winning_pool_id < MAX_POOLS_PER_INIT
            &&& self.weight == self.pool_weights[self.winning_pool_id as int]
        }
    }
}

} // verus!
