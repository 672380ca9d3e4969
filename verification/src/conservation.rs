//! What the operations guarantee together: the weight that commits put into
//! a pool is the weight that resolution records for it, and the claims on
//! the winning pool share out the pot without exceeding it.

use vstd::prelude::*;
use crate::instructions::claim::{
    claimed, lemma_rewards_leave_only_rounding, lemma_rewards_never_exceed_pot, pot,
    rewards_paid, ClaimContext,
};
use crate::instructions::commit::{committed, pool_balanced, Commit};
use crate::instructions::mint_position::{minted, MintPosition};
use crate::instructions::resolve::{
    aggregation_error, callback_settled, request_confirmed, resolved_by_authority,
    weights_recorded, CallbackResolve, ResolveContext,
};
use crate::instructions::snapshot::{distinct_pools, lemma_snapshot_holds_each_pool_weight};
use crate::state::{committed_positions, committed_weight, Commitment, Pool};

verus! {

/// When the resolver names pool `winner` of the pools handed in, the reward
/// denominator of the resolved epoch is the weight of the winner's
/// commitments, and what all of them are paid together is at most the pot.
/// When the winner has any weight, the payments fall short of the pot by
/// less than one unit for each commitment.
pub proof fn lemma_authority_winners_share_the_pot(
    ctx: ResolveContext,
    pools: Seq<Pool>,
    winner: int,
    commitments: Seq<Commitment>,
)
    requires
        aggregation_error(ctx.config, pools) is None,
        distinct_pools(pools),
        0 <= winner < pools.len(),
        pool_balanced(pools[winner], commitments),
    ensures
        ({
            let resolved = resolved_by_authority(ctx, pools, pools[winner].id);
            let the_pot = pot(resolved.epoch_result, resolved.config);
            let paid = rewards_paid(commitments, the_pot, resolved.epoch_result.weight as int);
            &&& resolved.epoch_result.winning_pool_id == pools[winner].id
            &&& resolved.epoch_result.weight == committed_weight(commitments)
            &&& resolved.epoch_result.weight > 0 ==> 0 <= paid <= the_pot && the_pot
                - commitments.len() < paid
        }),
{
    let resolved = resolved_by_authority(ctx, pools, pools[winner].id);
    let the_pot = pot(resolved.epoch_result, resolved.config);
    assert forall|k: int| 0 <= k < pools.len() implies (#[trigger] pools[k]).well_formed() by {}
    lemma_snapshot_holds_each_pool_weight(ctx.epoch_result.pool_weights, pools, winner);
    assert(0 <= the_pot) by (nonlinear_arith)
        requires
            the_pot == resolved.epoch_result.total_position_amount * resolved.config.position_price,
    ;
    if resolved.epoch_result.weight > 0 {
        lemma_rewards_never_exceed_pot(commitments, the_pot, resolved.epoch_result.weight as int);
        lemma_rewards_leave_only_rounding(
            commitments,
            the_pot,
            resolved.epoch_result.weight as int,
        );
    }
}

/// The same holds when the oracle draws the winner: after the request was
/// confirmed on the pools handed in and the oracle's answer selected pool
/// `winner` of them, the reward denominator is the weight of the winner's
/// commitments, and what all of them are paid together is at most the pot.
pub proof fn lemma_drawn_winners_share_the_pot(
    ctx: ResolveContext,
    pools: Seq<Pool>,
    winner: int,
    commitments: Seq<Commitment>,
    answer: CallbackResolve,
)
    requires
        aggregation_error(ctx.config, pools) is None,
        distinct_pools(pools),
        0 <= winner < pools.len(),
        pool_balanced(pools[winner], commitments),
        answer.epoch_result == request_confirmed(ctx, pools).epoch_result,
    ensures
        ({
            let resolved = callback_settled(answer, pools[winner].id);
            let the_pot = pot(resolved.epoch_result, resolved.config);
            let paid = rewards_paid(commitments, the_pot, resolved.epoch_result.weight as int);
            &&& resolved.epoch_result.winning_pool_id == pools[winner].id
            &&& resolved.epoch_result.weight == committed_weight(commitments)
            &&& resolved.epoch_result.weight > 0 ==> 0 <= paid <= the_pot && the_pot
                - commitments.len() < paid
        }),
{
    let resolved = callback_settled(answer, pools[winner].id);
    let the_pot = pot(resolved.epoch_result, resolved.config);
    assert forall|k: int| 0 <= k < pools.len() implies (#[trigger] pools[k]).well_formed() by {}
    lemma_snapshot_holds_each_pool_weight(ctx.epoch_result.pool_weights, pools, winner);
    assert(0 <= the_pot) by (nonlinear_arith)
        requires
            the_pot == resolved.epoch_result.total_position_amount * resolved.config.position_price,
    ;
    if resolved.epoch_result.weight > 0 {
        lemma_rewards_never_exceed_pot(commitments, the_pot, resolved.epoch_result.weight as int);
        lemma_rewards_leave_only_rounding(
            commitments,
            the_pot,
            resolved.epoch_result.weight as int,
        );
    }
}

/// A winner that nobody committed to leaves nothing to claim: when the
/// winning pool's weight is zero, none of its commitments holds a position.
pub proof fn lemma_empty_winner_has_nothing_to_claim(
    pool: Pool,
    commitments: Seq<Commitment>,
    index: int,
)
    requires
        pool_balanced(pool, commitments),
        pool.total_weight == 0,
        forall|i: int| 0 <= i < commitments.len() ==> (#[trigger] commitments[i]).well_formed(),
        0 <= index < commitments.len(),
    ensures
        commitments[index].is_fresh(),
        commitments[index].weight == 0,
    decreases commitments.len(),
{
    let rest = commitments.drop_last();
    assert forall|i: int| 0 <= i < rest.len() implies (#[trigger] rest[i]).well_formed() by {
        assert(rest[i] == commitments[i]);
    }
    lemma_committed_weight_nonnegative(rest);
    lemma_committed_positions_nonnegative(rest);
    if index < commitments.len() - 1 {
        let smaller = Pool {
            total_weight: committed_weight(rest) as u64,
            total_positions: committed_positions(rest) as u64,
            ..pool
        };
        assert forall|i: int| 0 <= i < rest.len() implies {
            &&& (#[trigger] rest[i]).pool_id == smaller.id
            &&& rest[i].epoch == smaller.epoch
        } by {
            assert(rest[i] == commitments[i]);
        }
        lemma_empty_winner_has_nothing_to_claim(smaller, rest, index);
        assert(rest[index] == commitments[index]);
    } else {
        assert(commitments[index] == commitments.last());
    }
}

proof fn lemma_committed_weight_nonnegative(commitments: Seq<Commitment>)
    ensures
        0 <= committed_weight(commitments),
    decreases commitments.len(),
{
    if commitments.len() > 0 {
        lemma_committed_weight_nonnegative(commitments.drop_last());
    }
}

proof fn lemma_committed_positions_nonnegative(commitments: Seq<Commitment>)
    ensures
        0 <= committed_positions(commitments),
    decreases commitments.len(),
{
    if commitments.len() > 0 {
        lemma_committed_positions_nonnegative(commitments.drop_last());
    }
}

/// Nothing but a resolution makes another epoch current: committing,
/// claiming, minting, recording the weights for the oracle and the oracle's
/// answer all leave the current epoch's number as it is.
pub proof fn lemma_only_resolution_advances_the_epoch(
    commit: Commit,
    claim: ClaimContext,
    mint: MintPosition,
    resolution: ResolveContext,
    answer: CallbackResolve,
    pools: Seq<Pool>,
    index: u8,
    current_time: i64,
)
    ensures
        committed(commit, current_time).config == commit.config,
        claimed(claim).config == claim.config,
        minted(mint, current_time).config.current_epoch == mint.config.current_epoch,
        weights_recorded(resolution, pools).config == resolution.config,
        callback_settled(answer, index).config.current_epoch == answer.config.current_epoch,
{
}

} // verus!
