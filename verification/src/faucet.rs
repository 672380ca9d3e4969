//! A faucet that hands out the reward asset for trying the lottery: it
//! mints a supply once and gives each user one portion of it.

use vstd::prelude::*;
use crate::address::Address;
use crate::native_token::lamports_per_sol;

verus! {

/// The portion a user gets, in whole units, where setup names none.
pub const DEFAULT_CLAIM_AMOUNT: u64 = 10_000;

/// The faucet's configuration.
#[derive(Clone, Copy, Debug, PartialEq, Eq)]
pub struct Config {
    pub admin: Address,
    /// The portion a user gets, in the asset's smallest unit.
    pub claim_amount: u64,
}

/// What the faucet remembers of a user: `claimed_at` is zero until the
/// user's first claim.
#[derive(Clone, Copy, Debug, PartialEq, Eq)]
pub struct ClaimRecord {
    pub user: Address,
    pub claimed_at: i64,
}

/// Why the faucet refused.
#[derive(Clone, Copy, Debug, PartialEq, Eq, Structural)]
pub enum FaucetError {
    /// The portion does not fit 64 bits in the asset's smallest unit.
    ArithmeticOverflow,
    /// The user has had their portion.
    AlreadyClaimed,
}

/// What the faucet's setup works on: the caller and the slot for the
/// configuration.
#[derive(Clone, Copy, Debug, PartialEq, Eq)]
pub struct InitializeContext {
    pub signer: Address,
    /// Overwritten entirely by setup.
    pub config: Config,
}

/// What a claim from the faucet works on: the caller, the caller's record
/// and the configuration.
#[derive(Clone, Copy, Debug, PartialEq, Eq)]
pub struct ClaimContext {
    pub signer: Address,
    pub claim_record: ClaimRecord,
    pub config: Config,
}

/// The portion in whole units that setup was asked for.
pub open spec fn portion_in_units(claim_amount: Option<u64>) -> u64 {
    match claim_amount {
        Some(units) => units,
        None => DEFAULT_CLAIM_AMOUNT,
    }
}

/// Sets the faucet up with the caller as administrator and a portion of
/// `claim_amount` whole units, 10 000 where none is named. It returns the
/// supply to mint, which is `initial_supply`. A portion that does not fit
/// 64 bits in the smallest unit is refused.
pub fn initialize(
    ctx: &mut InitializeContext,
    initial_supply: u64,
    claim_amount: Option<u64>,
) -> (result: Result<u64, FaucetError>)
    ensures
        1_000_000_000 * portion_in_units(claim_amount) > u64::MAX ==> {
            &&& result == Err::<u64, FaucetError>(FaucetError::ArithmeticOverflow)
            &&& *final(ctx) == *old(ctx)
        },
        1_000_000_000 * portion_in_units(claim_amount) <= u64::MAX ==> {
            &&& result == Ok::<u64, FaucetError>(initial_supply)
            &&& *final(ctx) == (InitializeContext {
                config: Config {
                    admin: old(ctx).signer,
                    claim_amount: (1_000_000_000 * portion_in_units(claim_amount)) as u64,
                },
                ..*old(ctx)
            })
        },
{
    let claim_amount_ui: u64 = match claim_amount {
        Some(units) => units,
        None => DEFAULT_CLAIM_AMOUNT,
    };
    let claim_amount_raw: u64 = match lamports_per_sol().checked_mul(claim_amount_ui) {
        Some(raw) => raw,
        None => {
            return Err(FaucetError::ArithmeticOverflow);
        },
    };
    ctx.config = Config { admin: ctx.signer, claim_amount: claim_amount_raw };
    Ok(initial_supply)
}

/// Whether the faucet refuses the caller: a user who is not the
/// administrator and has claimed before.
pub open spec fn claim_refused(ctx: ClaimContext) -> bool {
    ctx.signer != ctx.config.admin && ctx.claim_record.claimed_at != 0
}

/// Gives the caller their portion. Every user gets one; the administrator
/// may claim again and again. The caller and the time are written to the
/// caller's record, and the portion is returned as the amount to pay out.
pub fn claim(ctx: &mut ClaimContext, current_time: i64) -> (result: Result<u64, FaucetError>)
    ensures
        claim_refused(*old(ctx)) ==> {
            &&& result == Err::<u64, FaucetError>(FaucetError::AlreadyClaimed)
            &&& *final(ctx) == *old(ctx)
        },
        !claim_refused(*old(ctx)) ==> {
            &&& result == Ok::<u64, FaucetError>(old(ctx).config.claim_amount)
            &&& *final(ctx) == (ClaimContext {
                claim_record: ClaimRecord { user: old(ctx).signer, claimed_at: current_time },
                ..*old(ctx)
            })
        },
{
    if ctx.signer != ctx.config.admin && ctx.claim_record.claimed_at != 0 {
        return Err(FaucetError::AlreadyClaimed);
    }
    ctx.claim_record.user = ctx.signer;
    ctx.claim_record.claimed_at = current_time;
    Ok(ctx.config.claim_amount)
}

/// A user who is not the administrator gets one portion only: after a
/// claim at a time other than zero, their next claim is refused.
pub proof fn lemma_second_claim_is_refused(ctx: ClaimContext, current_time: i64)
    requires
        ctx.signer != ctx.config.admin,
        current_time != 0,
    ensures
        claim_refused(
            ClaimContext {
                claim_record: ClaimRecord { user: ctx.signer, claimed_at: current_time },
                ..ctx
            },
        ),
{
}

} // verus!
