//! Positions and the per-user counter that numbers them.

use vstd::prelude::*;
use crate::address::Address;

verus! {

/// One purchased unit. It is created when minted and destroyed when it is
/// committed to a pool.
#[derive(Clone, Copy, Debug, PartialEq, Eq)]
pub struct PositionAccount {
    pub owner: Address,
    /// The position's number among its owner's positions.
    pub user_index: u64,
    /// The position's number among all positions.
    pub global_id: u64,
    pub created_at: i64,
}

/// How many positions a user has minted so far.
#[derive(Clone, Copy, Debug, PartialEq, Eq)]
pub struct UserState {
    pub position_count: u64,
}

} // verus!
