//! The engine's configuration: one record for the whole system.

use vstd::prelude::*;
use crate::address::Address;

verus! {

/// How a position's weight is computed when it is committed.
#[derive(Clone, Copy, Debug, PartialEq, Eq, Structural)]
pub enum WeightModel {
    /// Every position weighs 1.0.
    Constant,
    /// A position weighs in proportion to its age.
    TimeBased,
}

/// Who picks an epoch's winning pool.
#[derive(Clone, Copy, Debug, PartialEq, Eq, Structural)]
pub enum ResolutionType {
    /// The resolver names the winner.
    Admin,
    /// The randomness oracle draws the winner.
    Oracle,
}

/// The configuration record. It is written once at setup; afterwards only
/// role-gated operations change it.
#[derive(Clone, Copy, Debug, PartialEq, Eq)]
pub struct Config {
    pub admin: Address,
    pub resolver: Address,
    /// The number of the epoch that is open; it starts at 1 and grows by one
    /// with each resolution.
    pub current_epoch: u64,
    pub total_positions_minted: u64,
    /// What one position costs, in the smallest unit of the reward asset.
    pub position_price: u64,
    /// Positions of an epoch whose winning pool was empty, waiting to be
    /// added to the next epoch's total.
    pub remaining_total_position: u64,
    pub allowed_mint: Address,
    pub treasury_ata: Address,
    pub weight_model: WeightModel,
    pub resolution_type: ResolutionType,
    pub epoch_duration: i64,
    /// A time-based weight is `age * numerator / denominator`.
    pub weight_rate_numerator: u64,
    pub weight_rate_denominator: u64,
}

} // verus!
