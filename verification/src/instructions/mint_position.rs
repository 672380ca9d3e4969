//! Buying a position.

use vstd::prelude::*;
use crate::address::Address;
use crate::errors::Errors;
use crate::state::{Config, PositionAccount, UserState};
use crate::transfer::Transfer;

verus! {

/// What minting works on: the buyer, where the payment comes from, the
/// asset it is made in, the buyer's counter, the place of the new position
/// and the configuration.
#[derive(Clone, Copy, Debug, PartialEq, Eq)]
pub struct MintPosition {
    pub signer: Address,
    pub user_ata: Address,
    pub mint: Address,
    pub user_state: UserState,
    /// The new position; `None` until it is minted.
    pub position: Option<PositionAccount>,
    pub config: Config,
}

/// Why minting fails, if it does.
pub open spec fn mint_position_error(ctx: MintPosition) -> Option<Errors> {
    if ctx.mint != ctx.config.allowed_mint {
        Some(Errors::InvalidAdd)
    } else if ctx.position is Some {
        Some(Errors::AlreadyInitialized)
    } else if ctx.user_state.position_count + 1 > u64::MAX {
        Some(Errors::InvalidAdd)
    } else if ctx.config.total_positions_minted + 1 > u64::MAX {
        Some(Errors::InvalidAdd)
    } else {
        None
    }
}

/// The records after a position has been minted at `current_time`: the new
/// position carries the buyer, the two counters as they were, and the time;
/// both counters have grown by one.
pub open spec fn minted(ctx: MintPosition, current_time: i64) -> MintPosition {
    MintPosition {
        position: Some(
            PositionAccount {
                owner: ctx.signer,
                user_index: ctx.user_state.position_count,
                global_id: ctx.config.total_positions_minted,
                created_at: current_time,
            },
        ),
        user_state: UserState { position_count: (ctx.user_state.position_count + 1) as u64 },
        config: Config {
            total_positions_minted: (ctx.config.total_positions_minted + 1) as u64,
            ..ctx.config
        },
        ..ctx
    }
}

/// The payment that minting orders: the position's price, from the buyer to
/// the treasury.
pub open spec fn mint_payment(ctx: MintPosition) -> Transfer {
    Transfer {
        from: ctx.user_ata,
        to: ctx.config.treasury_ata,
        amount: ctx.config.position_price,
        asset: ctx.mint,
    }
}

/// Mints one position for the caller, paid in the configured reward asset.
/// The position is numbered by the caller's counter and by the global one,
/// and both counters grow by one. The price is returned as the payment to
/// make. A position that exists is not minted again.
pub fn mint_position(ctx: &mut MintPosition, current_time: i64) -> (result: Result<
    Transfer,
    Errors,
>)
    ensures
        match mint_position_error(*old(ctx)) {
            Some(e) => {
                &&& result == Err::<Transfer, Errors>(e)
                &&& *final(ctx) == *old(ctx)
            },
            None => {
                &&& result == Ok::<Transfer, Errors>(mint_payment(*old(ctx)))
                &&& *final(ctx) == minted(*old(ctx), current_time)
            },
        },
{
    if ctx.mint != ctx.config.allowed_mint {
        return Err(Errors::InvalidAdd);
    }
    if ctx.position.is_some() {
        return Err(Errors::AlreadyInitialized);
    }
    let user_position_count: u64 = ctx.user_state.position_count;
    let global_id: u64 = ctx.config.total_positions_minted;
    let next_user_count: u64 = match user_position_count.checked_add(1) {
        Some(n) => n,
        None => {
            return Err(Errors::InvalidAdd);
        },
    };
    let next_global_id: u64 = match global_id.checked_add(1) {
        Some(n) => n,
        None => {
            return Err(Errors::InvalidAdd);
        },
    };
    ctx.position = Some(
        PositionAccount {
            owner: ctx.signer,
            user_index: user_position_count,
            global_id,
            created_at: current_time,
        },
    );
    ctx.user_state.position_count = next_user_count;
    ctx.config.total_positions_minted = next_global_id;
    Ok(
        Transfer {
            from: ctx.user_ata,
            to: ctx.config.treasury_ata,
            amount: ctx.config.position_price,
            asset: ctx.mint,
        },
    )
}

/// A position is minted once: after it has been minted, minting into the
/// same place is refused.
pub proof fn lemma_position_is_minted_once(ctx: MintPosition, current_time: i64)
    requires
        mint_position_error(ctx) is None,
    ensures
        mint_position_error(minted(ctx, current_time)) == Some(Errors::AlreadyInitialized),
{
}

/// Positions are numbered in sequence: each minted position carries the
/// counters as they were, and leaves both counters one higher.
pub proof fn lemma_positions_are_numbered_in_sequence(ctx: MintPosition, current_time: i64)
    requires
        mint_position_error(ctx) is None,
    ensures
        minted(ctx, current_time).position->Some_0.user_index + 1 == minted(
            ctx,
            current_time,
        ).user_state.position_count,
        minted(ctx, current_time).position->Some_0.global_id + 1 == minted(
            ctx,
            current_time,
        ).config.total_positions_minted,
        minted(ctx, current_time).position->Some_0.owner == ctx.signer,
{
}

} // verus!
