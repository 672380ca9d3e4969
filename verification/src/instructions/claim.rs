//! Paying out a winner.

use vstd::prelude::*;
use vstd::arithmetic::div_mod::{
    lemma_div_is_ordered, lemma_div_multiples_vanish, lemma_fundamental_div_mod, lemma_mod_bound,
};
use vstd::arithmetic::mul::{lemma_mul_is_distributive_add_other_way, lemma_mul_nonnegative};
use crate::address::Address;
use crate::errors::Errors;
use crate::state::{committed_weight, Commitment, Config, EpochResult, EpochResultState};
use crate::transfer::Transfer;

verus! {

/// What a claim works on: the caller, the configuration, the result of the
/// epoch claimed from, the caller's commitment, where the reward goes and
/// the asset it is paid in.
#[derive(Clone, Copy, Debug, PartialEq, Eq)]
pub struct ClaimContext {
    pub signer: Address,
    pub config: Config,
    pub epoch_result: EpochResult,
    /// The commitment to claim; `None` once it has been paid.
    pub commitment: Option<Commitment>,
    pub user_ata: Address,
    pub token_mint: Address,
}

/// The pot of an epoch: what all its positions cost together.
pub open spec fn pot(epoch_result: EpochResult, config: Config) -> int {
    epoch_result.total_position_amount * config.position_price
}

/// The share of `pot` that a commitment of weight `weight` is paid when the
/// winning pool's total weight is `winning_weight`: in proportion, rounded
/// down.
pub open spec fn reward(weight: int, pot: int, winning_weight: int) -> int
    recommends
        winning_weight > 0,
{
    weight * pot / winning_weight
}

/// Why a claim fails, if it does.
pub open spec fn claim_error(ctx: ClaimContext, pool_id: u8, epoch: u64) -> Option<Errors> {
    match ctx.commitment {
        None => Some(Errors::AlreadyClaimed),
        Some(commitment) => {
            if commitment.user_pk != ctx.signer {
                Some(Errors::Unauthorized)
            } else if commitment.pool_id != pool_id {
                Some(Errors::InvalidPoolId)
            } else if commitment.epoch != epoch || ctx.epoch_result.epoch != epoch {
                Some(Errors::InvalidEpoch)
            } else if ctx.epoch_result.epoch_result_state != EpochResultState::Resolved {
                Some(Errors::InvalidEpochState)
            } else if ctx.epoch_result.winning_pool_id != pool_id {
                Some(Errors::LosingPool)
            } else if ctx.token_mint != ctx.config.allowed_mint {
                Some(Errors::InvalidAdd)
            } else if pot(ctx.epoch_result, ctx.config) > u64::MAX {
                Some(Errors::InvalidMul)
            } else if commitment.weight * pot(ctx.epoch_result, ctx.config) > u64::MAX {
                Some(Errors::InvalidMul)
            } else if ctx.epoch_result.weight == 0 {
                Some(Errors::InvalidDiv)
            } else {
                None
            }
        },
    }
}

/// The payment that a successful claim orders: the commitment's share of
/// the pot, from the treasury to the claimant.
pub open spec fn claim_payment(ctx: ClaimContext) -> Transfer
    recommends
        ctx.commitment is Some,
{
    Transfer {
        from: ctx.config.treasury_ata,
        to: ctx.user_ata,
        amount: reward(
            ctx.commitment->Some_0.weight as int,
            pot(ctx.epoch_result, ctx.config),
            ctx.epoch_result.weight as int,
        ) as u64,
        asset: ctx.token_mint,
    }
}

/// The records after a successful claim: the commitment is gone.
pub open spec fn claimed(ctx: ClaimContext) -> ClaimContext {
    ClaimContext { commitment: None, ..ctx }
}

/// Claims the reward of the caller's commitment in pool `pool_id` of epoch
/// `epoch`. The epoch has to be resolved and the pool has to be its winner.
/// The reward is the commitment's share, by weight, of the epoch's pot; it
/// is returned as the payment to make, and the commitment is destroyed, so
/// that it cannot be claimed again.
pub fn claim(ctx: &mut ClaimContext, pool_id: u8, epoch: u64) -> (result: Result<Transfer, Errors>)
    ensures
        match claim_error(*old(ctx), pool_id, epoch) {
            Some(e) => {
                &&& result == Err::<Transfer, Errors>(e)
                &&& *final(ctx) == *old(ctx)
            },
            None => {
                &&& result == Ok::<Transfer, Errors>(claim_payment(*old(ctx)))
                &&& *final(ctx) == claimed(*old(ctx))
            },
        },
{
    let commitment: Commitment = match ctx.commitment {
        Some(c) => c,
        None => {
            return Err(Errors::AlreadyClaimed);
        },
    };
    if commitment.user_pk != ctx.signer {
        return Err(Errors::Unauthorized);
    }
    if commitment.pool_id != pool_id {
        return Err(Errors::InvalidPoolId);
    }
    if commitment.epoch != epoch || ctx.epoch_result.epoch != epoch {
        return Err(Errors::InvalidEpoch);
    }
    if ctx.epoch_result.epoch_result_state != EpochResultState::Resolved {
        return Err(Errors::InvalidEpochState);
    }
    if ctx.epoch_result.winning_pool_id != pool_id {
        return Err(Errors::LosingPool);
    }
    if ctx.token_mint != ctx.config.allowed_mint {
        return Err(Errors::InvalidAdd);
    }
    let token_amount: u64 = match ctx.epoch_result.total_position_amount.checked_mul(
        ctx.config.position_price,
    ) {
        Some(t) => t,
        None => {
            return Err(Errors::InvalidMul);
        },
    };
    let numerator: u64 = match commitment.weight.checked_mul(token_amount) {
        Some(n) => n,
        None => {
            return Err(Errors::InvalidMul);
        },
    };
    let amount: u64 = match numerator.checked_div(ctx.epoch_result.weight) {
        Some(r) => r,
        None => {
            return Err(Errors::InvalidDiv);
        },
    };
    ctx.commitment = None;
    Ok(Transfer { from: ctx.config.treasury_ata, to: ctx.user_ata, amount, asset: ctx.token_mint })
}

/// What the given commitments are paid together.
pub open spec fn rewards_paid(commitments: Seq<Commitment>, pot: int, winning_weight: int) -> int
    decreases commitments.len(),
{
    if commitments.len() == 0 {
        0
    } else {
        rewards_paid(commitments.drop_last(), pot, winning_weight) + reward(
            commitments.last().weight as int,
            pot,
            winning_weight,
        )
    }
}

/// Rounding down costs each claim less than one unit: the payments times
/// the winning weight fall short of the claimed weight times the pot by
/// less than one winning weight for each claim.
proof fn lemma_rewards_bounds(commitments: Seq<Commitment>, pot: int, winning_weight: int)
    requires
        0 <= pot,
        0 < winning_weight,
    ensures
        0 <= rewards_paid(commitments, pot, winning_weight),
        rewards_paid(commitments, pot, winning_weight) * winning_weight <= committed_weight(
            commitments,
        ) * pot,
        commitments.len() > 0 ==> committed_weight(commitments) * pot - commitments.len()
            * winning_weight < rewards_paid(commitments, pot, winning_weight) * winning_weight,
    decreases commitments.len(),
{
    if commitments.len() > 0 {
        let rest = commitments.drop_last();
        let weight = commitments.last().weight as int;
        let share = reward(weight, pot, winning_weight);
        lemma_rewards_bounds(rest, pot, winning_weight);
        lemma_mul_nonnegative(weight, pot);
        lemma_fundamental_div_mod(weight * pot, winning_weight);
        lemma_mod_bound(weight * pot, winning_weight);
        assert(share * winning_weight <= weight * pot && weight * pot - winning_weight < share
            * winning_weight && 0 <= share) by (nonlinear_arith)
            requires
                weight * pot == winning_weight * share + (weight * pot) % winning_weight,
                0 <= (weight * pot) % winning_weight < winning_weight,
                0 <= weight * pot,
                0 < winning_weight,
        ;
        lemma_mul_is_distributive_add_other_way(
            winning_weight,
            rewards_paid(rest, pot, winning_weight),
            share,
        );
        lemma_mul_is_distributive_add_other_way(pot, committed_weight(rest), weight);
        assert(commitments.len() * winning_weight == rest.len() * winning_weight + winning_weight)
            by (nonlinear_arith)
            requires
                commitments.len() == rest.len() + 1,
        ;
    }
}

/// The claims of an epoch never pay more than its pot: whichever
/// commitments of the winning pool are claimed, as long as their weights
/// together do not exceed the winning pool's total weight, the payments
/// together do not exceed the pot.
pub proof fn lemma_rewards_never_exceed_pot(
    commitments: Seq<Commitment>,
    pot: int,
    winning_weight: int,
)
    requires
        0 <= pot,
        0 < winning_weight,
        committed_weight(commitments) <= winning_weight,
    ensures
        0 <= rewards_paid(commitments, pot, winning_weight) <= pot,
{
    lemma_rewards_bounds(commitments, pot, winning_weight);
    let paid = rewards_paid(commitments, pot, winning_weight);
    let claimed_weight = committed_weight(commitments);
    assert(paid <= pot) by (nonlinear_arith)
        requires
            paid * winning_weight <= claimed_weight * pot,
            claimed_weight <= winning_weight,
            0 <= pot,
            0 < winning_weight,
    ;
}

/// When all the winners have claimed, what is left of the pot is what
/// rounding down kept back: less than one unit for each claim.
pub proof fn lemma_rewards_leave_only_rounding(
    commitments: Seq<Commitment>,
    pot: int,
    winning_weight: int,
)
    requires
        0 <= pot,
        0 < winning_weight,
        committed_weight(commitments) == winning_weight,
    ensures
        pot - commitments.len() < rewards_paid(commitments, pot, winning_weight) <= pot,
{
    lemma_rewards_never_exceed_pot(commitments, pot, winning_weight);
    lemma_rewards_bounds(commitments, pot, winning_weight);
    let paid = rewards_paid(commitments, pot, winning_weight);
    let count = commitments.len() as int;
    if count > 0 {
        assert(pot - count < paid) by (nonlinear_arith)
            requires
                winning_weight * pot - count * winning_weight < paid * winning_weight,
                0 < winning_weight,
        ;
    }
}

/// When all the winners have claimed and no share needed rounding, the pot
/// is paid out exactly.
pub proof fn lemma_exact_rewards_exhaust_pot(
    commitments: Seq<Commitment>,
    pot: int,
    winning_weight: int,
)
    requires
        0 <= pot,
        0 < winning_weight,
        committed_weight(commitments) == winning_weight,
        forall|i: int|
            0 <= i < commitments.len() ==> ((#[trigger] commitments[i]).weight * pot)
                % winning_weight == 0,
    ensures
        rewards_paid(commitments, pot, winning_weight) == pot,
{
    lemma_exact_rewards(commitments, pot, winning_weight);
    let paid = rewards_paid(commitments, pot, winning_weight);
    assert(paid == pot) by (nonlinear_arith)
        requires
            paid * winning_weight == winning_weight * pot,
            0 < winning_weight,
    ;
}

proof fn lemma_exact_rewards(commitments: Seq<Commitment>, pot: int, winning_weight: int)
    requires
        0 < winning_weight,
        forall|i: int|
            0 <= i < commitments.len() ==> ((#[trigger] commitments[i]).weight * pot)
                % winning_weight == 0,
    ensures
        rewards_paid(commitments, pot, winning_weight) * winning_weight == committed_weight(
            commitments,
        ) * pot,
    decreases commitments.len(),
{
    if commitments.len() > 0 {
        let rest = commitments.drop_last();
        let weight = commitments.last().weight as int;
        let share = reward(weight, pot, winning_weight);
        assert forall|i: int| 0 <= i < rest.len() implies ((#[trigger] rest[i]).weight * pot)
            % winning_weight == 0 by {
            assert(rest[i] == commitments[i]);
        }
        lemma_exact_rewards(rest, pot, winning_weight);
        assert(commitments[commitments.len() - 1] == commitments.last());
        lemma_fundamental_div_mod(weight * pot, winning_weight);
        assert(share * winning_weight == weight * pot) by (nonlinear_arith)
            requires
                weight * pot == winning_weight * share + (weight * pot) % winning_weight,
                (weight * pot) % winning_weight == 0,
        ;
        lemma_mul_is_distributive_add_other_way(
            winning_weight,
            rewards_paid(rest, pot, winning_weight),
            share,
        );
        lemma_mul_is_distributive_add_other_way(pot, committed_weight(rest), weight);
    }
}

/// A commitment is paid at most once: after a successful claim, every
/// further claim on the same records fails, because the commitment exists
/// no longer.
pub proof fn lemma_claimed_commitment_is_gone(
    ctx: ClaimContext,
    pool_id: u8,
    epoch: u64,
    next_pool_id: u8,
    next_epoch: u64,
)
    requires
        claim_error(ctx, pool_id, epoch) is None,
    ensures
        claim_error(claimed(ctx), next_pool_id, next_epoch) == Some(Errors::AlreadyClaimed),
{
}

/// A successful claim pays exactly the commitment's share: nothing is lost
/// when the share is put into 64 bits.
pub proof fn lemma_claim_pays_the_share(ctx: ClaimContext, pool_id: u8, epoch: u64)
    requires
        claim_error(ctx, pool_id, epoch) is None,
    ensures
        claim_payment(ctx).amount == reward(
            ctx.commitment->Some_0.weight as int,
            pot(ctx.epoch_result, ctx.config),
            ctx.epoch_result.weight as int,
        ),
{
    let weight = ctx.commitment->Some_0.weight as int;
    let winning_weight = ctx.epoch_result.weight as int;
    let the_pot = pot(ctx.epoch_result, ctx.config);
    lemma_mul_nonnegative(
        ctx.epoch_result.total_position_amount as int,
        ctx.config.position_price as int,
    );
    lemma_mul_nonnegative(weight, the_pot);
    lemma_fundamental_div_mod(weight * the_pot, winning_weight);
    lemma_mod_bound(weight * the_pot, winning_weight);
    let share = reward(weight, the_pot, winning_weight);
    assert(0 <= share <= weight * the_pot) by (nonlinear_arith)
        requires
            weight * the_pot == winning_weight * share + (weight * the_pot) % winning_weight,
            0 <= (weight * the_pot) % winning_weight < winning_weight,
            0 <= weight * the_pot,
            0 < winning_weight,
    ;
}

/// A single payment is never more than the pot, as long as the commitment
/// weighs no more than the winning pool.
pub proof fn lemma_claim_payment_within_pot(ctx: ClaimContext, pool_id: u8, epoch: u64)
    requires
        claim_error(ctx, pool_id, epoch) is None,
        ctx.commitment->Some_0.weight <= ctx.epoch_result.weight,
    ensures
        claim_payment(ctx).amount <= pot(ctx.epoch_result, ctx.config),
{
    let weight = ctx.commitment->Some_0.weight as int;
    let winning_weight = ctx.epoch_result.weight as int;
    let the_pot = pot(ctx.epoch_result, ctx.config);
    lemma_mul_nonnegative(
        ctx.epoch_result.total_position_amount as int,
        ctx.config.position_price as int,
    );
    assert(weight * the_pot <= winning_weight * the_pot) by (nonlinear_arith)
        requires
            weight <= winning_weight,
            0 <= the_pot,
    ;
    lemma_div_is_ordered(weight * the_pot, winning_weight * the_pot, winning_weight);
    lemma_div_multiples_vanish(the_pot, winning_weight);
    assert(winning_weight * the_pot == the_pot * winning_weight) by (nonlinear_arith);
    lemma_mul_nonnegative(weight, the_pot);
}

} // verus!
