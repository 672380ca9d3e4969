//! Setting the engine up.

use vstd::prelude::*;
use crate::address::Address;
use crate::errors::Errors;
use crate::native_token::lamports_per_sol;
use crate::state::{Config, ResolutionType, WeightModel};

verus! {

/// How many whole units of the native token one position costs.
pub const POSITION_PRICE_IN_SOL: u64 = 1000;

/// What setup works on: the caller, the reward asset, the treasury's
/// custody location and the place of the configuration.
#[derive(Clone, Copy, Debug, PartialEq, Eq)]
pub struct Initialize {
    pub signer: Address,
    pub mint: Address,
    pub treasury_ata: Address,
    /// The configuration; `None` until the engine is set up.
    pub config: Option<Config>,
}

/// The configuration that setup writes: the caller is the administrator,
/// the first epoch is epoch 1, nothing is minted or carried over, and a
/// position costs 1000 units of the native token.
pub open spec fn initial_config(
    ctx: Initialize,
    weight_model: WeightModel,
    resolution_type: ResolutionType,
    resolver: Address,
    epoch_duration: i64,
    weight_rate_numerator: u64,
    weight_rate_denominator: u64,
) -> Config {
    Config {
        admin: ctx.signer,
        resolver,
        current_epoch: 1,
        total_positions_minted: 0,
        position_price: 1_000_000_000_000,
        remaining_total_position: 0,
        allowed_mint: ctx.mint,
        treasury_ata: ctx.treasury_ata,
        weight_model,
        resolution_type,
        epoch_duration,
        weight_rate_numerator,
        weight_rate_denominator,
    }
}

/// Sets the engine up: writes the configuration with the caller as
/// administrator. It succeeds once: an engine that is set up cannot be set
/// up again.
pub fn initialize(
    ctx: &mut Initialize,
    weight_model: WeightModel,
    resolution_type: ResolutionType,
    resolver: Address,
    epoch_duration: i64,
    weight_rate_numerator: u64,
    weight_rate_denominator: u64,
) -> (result: Result<(), Errors>)
    ensures
        old(ctx).config is Some ==> {
            &&& result == Err::<(), Errors>(Errors::AlreadyInitialized)
            &&& *final(ctx) == *old(ctx)
        },
        old(ctx).config is None ==> {
            &&& result == Ok::<(), Errors>(())
            &&& *final(ctx) == (Initialize {
                config: Some(
                    initial_config(
                        *old(ctx),
                        weight_model,
                        resolution_type,
                        resolver,
                        epoch_duration,
                        weight_rate_numerator,
                        weight_rate_denominator,
                    ),
                ),
                ..*old(ctx)
            })
        },
{
    if ctx.config.is_some() {
        return Err(Errors::AlreadyInitialized);
    }
    let position_price: u64 = match lamports_per_sol().checked_mul(POSITION_PRICE_IN_SOL) {
        Some(p) => p,
        None => {
            return Err(Errors::InvalidMul);
        },
    };
    ctx.config = Some(Config {
        admin: ctx.signer,
        resolver,
        current_epoch: 1,
        total_positions_minted: 0,
        position_price,
        remaining_total_position: 0,
        allowed_mint: ctx.mint,
        treasury_ata: ctx.treasury_ata,
        weight_model,
        resolution_type,
        epoch_duration,
        weight_rate_numerator,
        weight_rate_denominator,
    });
    Ok(())
}

} // verus!
