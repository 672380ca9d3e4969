//! Committing a position to a pool.

use vstd::prelude::*;
use crate::address::Address;
use crate::errors::Errors;
use crate::instructions::weight::{calculate_weight, weight_error, weight_of, WEIGHT_PRECISION};
use crate::state::commitment::lemma_committed_totals_after_update;
use crate::state::{
    committed_positions, committed_weight, Commitment, Config, EpochResult, Pool, PositionAccount,
};

verus! {

/// What a commit works on: the caller, the configuration, the current
/// epoch's result, the position to spend, the pool it goes to and the
/// caller's commitment in that pool.
#[derive(Clone, Copy, Debug, PartialEq, Eq)]
pub struct Commit {
    pub signer: Address,
    pub config: Config,
    pub epoch_result: EpochResult,
    /// The position to commit; `None` once it has been spent.
    pub position: Option<PositionAccount>,
    pub pool: Pool,
    /// The caller's commitment in this pool: either the record of earlier
    /// commits, or a fresh one.
    pub commitment: Commitment,
}

/// The weight that the position gets when it is committed at
/// `current_time`.
pub open spec fn commit_weight(ctx: Commit, current_time: i64) -> int
    recommends
        ctx.position is Some,
{
    weight_of(
        ctx.config.weight_model,
        ctx.position->Some_0.created_at,
        current_time,
        ctx.config.weight_rate_numerator,
        ctx.config.weight_rate_denominator,
    )
}

/// Why a commit fails, if it does.
pub open spec fn commit_error(ctx: Commit, current_time: i64) -> Option<Errors> {
    match ctx.position {
        None => Some(Errors::AlreadyCommitted),
        Some(position) => {
            let fault = weight_error(
                ctx.config.weight_model,
                position.created_at,
                current_time,
                ctx.config.weight_rate_numerator,
                ctx.config.weight_rate_denominator,
            );
            let weight = commit_weight(ctx, current_time);
            if position.owner != ctx.signer {
                Some(Errors::Unauthorized)
            } else if ctx.pool.epoch != ctx.config.current_epoch || ctx.epoch_result.epoch
                != ctx.config.current_epoch {
                Some(Errors::EpochMismatch)
            } else if !ctx.commitment.is_fresh() && ctx.commitment.user_pk != position.owner {
                Some(Errors::Unauthorized)
            } else if !ctx.commitment.is_fresh() && ctx.commitment.pool_id != ctx.pool.id {
                Some(Errors::InvalidPoolId)
            } else if !ctx.commitment.is_fresh() && ctx.commitment.epoch != ctx.pool.epoch {
                Some(Errors::InvalidEpoch)
            } else if ctx.epoch_result.end_at <= current_time {
                Some(Errors::EpochEnded)
            } else if fault is Some {
                fault
            } else if ctx.pool.total_positions + 1 > u64::MAX {
                Some(Errors::InvalidAdd)
            } else if ctx.pool.total_weight + weight > u64::MAX {
                Some(Errors::InvalidAdd)
            } else if ctx.commitment.weight + weight > u64::MAX {
                Some(Errors::InvalidAdd)
            } else if ctx.commitment.position_amount + 1 > u64::MAX {
                Some(Errors::InvalidAdd)
            } else {
                None
            }
        },
    }
}

/// The records after the position has been committed: the pool and the
/// commitment have each gained one position and its weight, the commitment
/// carries its owner, pool and epoch, and the position is gone.
pub open spec fn committed(ctx: Commit, current_time: i64) -> Commit
    recommends
        ctx.position is Some,
{
    let weight = commit_weight(ctx, current_time);
    Commit {
        position: None,
        pool: Pool {
            total_positions: (ctx.pool.total_positions + 1) as u64,
            total_weight: (ctx.pool.total_weight + weight) as u64,
            ..ctx.pool
        },
        commitment: Commitment {
            user_pk: ctx.position->Some_0.owner,
            position_amount: (ctx.commitment.position_amount + 1) as u64,
            weight: (ctx.commitment.weight + weight) as u64,
            pool_id: ctx.pool.id,
            epoch: ctx.pool.epoch,
        },
        ..ctx
    }
}

/// Commits the caller's position to the pool, while the pool's epoch is
/// current and has not ended. The position's weight is added to the pool
/// and to the caller's commitment in it, and the position is spent, so that
/// it cannot be committed again.
///
/// The position identifier and the pool identifier say where the storage
/// layer found the records; the operation does not read them.
pub fn commit(ctx: &mut Commit, _position_id: u64, _pool_id: u8, current_time: i64) -> (result:
    Result<(), Errors>)
    ensures
        match commit_error(*old(ctx), current_time) {
            Some(e) => {
                &&& result == Err::<(), Errors>(e)
                &&& *final(ctx) == *old(ctx)
            },
            None => {
                &&& result == Ok::<(), Errors>(())
                &&& *final(ctx) == committed(*old(ctx), current_time)
            },
        },
{
    let position: PositionAccount = match ctx.position {
        Some(p) => p,
        None => {
            return Err(Errors::AlreadyCommitted);
        },
    };
    if position.owner != ctx.signer {
        return Err(Errors::Unauthorized);
    }
    if ctx.pool.epoch != ctx.config.current_epoch || ctx.epoch_result.epoch
        != ctx.config.current_epoch {
        return Err(Errors::EpochMismatch);
    }
    if ctx.commitment.position_amount != 0 {
        if ctx.commitment.user_pk != position.owner {
            return Err(Errors::Unauthorized);
        }
        if ctx.commitment.pool_id != ctx.pool.id {
            return Err(Errors::InvalidPoolId);
        }
        if ctx.commitment.epoch != ctx.pool.epoch {
            return Err(Errors::InvalidEpoch);
        }
    }
    if ctx.epoch_result.end_at <= current_time {
        return Err(Errors::EpochEnded);
    }
    let weight: u64 = match calculate_weight(
        ctx.config.weight_model,
        position.created_at,
        current_time,
        ctx.config.weight_rate_numerator,
        ctx.config.weight_rate_denominator,
    ) {
        Ok(w) => w,
        Err(e) => {
            return Err(e);
        },
    };
    let pool_positions: u64 = match ctx.pool.total_positions.checked_add(1) {
        Some(n) => n,
        None => {
            return Err(Errors::InvalidAdd);
        },
    };
    let pool_weight: u64 = match ctx.pool.total_weight.checked_add(weight) {
        Some(w) => w,
        None => {
            return Err(Errors::InvalidAdd);
        },
    };
    let commitment_weight: u64 = match ctx.commitment.weight.checked_add(weight) {
        Some(w) => w,
        None => {
            return Err(Errors::InvalidAdd);
        },
    };
    let commitment_positions: u64 = match ctx.commitment.position_amount.checked_add(1) {
        Some(n) => n,
        None => {
            return Err(Errors::InvalidAdd);
        },
    };
    ctx.pool.total_positions = pool_positions;
    ctx.pool.total_weight = pool_weight;
    ctx.commitment = Commitment {
        user_pk: position.owner,
        position_amount: commitment_positions,
        weight: commitment_weight,
        pool_id: ctx.pool.id,
        epoch: ctx.pool.epoch,
    };
    ctx.position = None;
    Ok(())
}

/// Whether the pool's totals are exactly what the given commitments hold,
/// all of them commitments to this pool.
pub open spec fn pool_balanced(pool: Pool, commitments: Seq<Commitment>) -> bool {
    &&& pool.total_weight == committed_weight(commitments)
    &&& pool.total_positions == committed_positions(commitments)
    &&& forall|i: int|
        0 <= i < commitments.len() ==> {
            &&& (#[trigger] commitments[i]).pool_id == pool.id
            &&& commitments[i].epoch == pool.epoch
        }
}

/// A pool that nothing was committed to is in balance with no commitments.
pub proof fn lemma_empty_pool_is_balanced(id: u8, epoch: u64)
    ensures
        pool_balanced(Pool::empty(id, epoch), Seq::<Commitment>::empty()),
{
}

/// A commit that adds to one of the pool's commitments keeps the pool in
/// balance with its commitments.
pub proof fn lemma_commit_keeps_pool_balanced(
    ctx: Commit,
    current_time: i64,
    commitments: Seq<Commitment>,
    index: int,
)
    requires
        commit_error(ctx, current_time) is None,
        pool_balanced(ctx.pool, commitments),
        0 <= index < commitments.len(),
        commitments[index] == ctx.commitment,
    ensures
        pool_balanced(
            committed(ctx, current_time).pool,
            commitments.update(index, committed(ctx, current_time).commitment),
        ),
{
    lemma_committed_totals_after_update(
        commitments,
        index,
        committed(ctx, current_time).commitment,
    );
}

/// A commit through a new commitment keeps the pool in balance with its
/// commitments, the new one among them.
pub proof fn lemma_first_commit_keeps_pool_balanced(
    ctx: Commit,
    current_time: i64,
    commitments: Seq<Commitment>,
)
    requires
        commit_error(ctx, current_time) is None,
        pool_balanced(ctx.pool, commitments),
        ctx.commitment.is_fresh(),
        ctx.commitment.well_formed(),
    ensures
        pool_balanced(
            committed(ctx, current_time).pool,
            commitments.push(committed(ctx, current_time).commitment),
        ),
{
    let grown = commitments.push(committed(ctx, current_time).commitment);
    assert(grown.drop_last() =~= commitments);
}

/// Every commit adds at least the weight 1.0, and the same weight to the
/// pool as to the commitment; a well-formed commitment stays well formed.
pub proof fn lemma_commit_adds_equal_weight(ctx: Commit, current_time: i64)
    requires
        commit_error(ctx, current_time) is None,
    ensures
        committed(ctx, current_time).pool.total_weight - ctx.pool.total_weight == committed(
            ctx,
            current_time,
        ).commitment.weight - ctx.commitment.weight,
        committed(ctx, current_time).pool.total_weight - ctx.pool.total_weight >= WEIGHT_PRECISION,
        ctx.commitment.well_formed() ==> committed(ctx, current_time).commitment.well_formed(),
{
    let position = ctx.position->Some_0;
    if ctx.config.weight_model == crate::state::WeightModel::TimeBased {
        crate::instructions::weight::lemma_time_based_weight_monotonic(
            current_time - position.created_at,
            current_time - position.created_at,
            ctx.config.weight_rate_numerator as int,
            ctx.config.weight_rate_denominator as int,
        );
    }
}

/// A position is committed at most once: after a successful commit, every
/// further commit on the same records fails, because the position exists no
/// longer.
pub proof fn lemma_committed_position_is_spent(ctx: Commit, current_time: i64, later: i64)
    requires
        commit_error(ctx, current_time) is None,
    ensures
        commit_error(committed(ctx, current_time), later) == Some(Errors::AlreadyCommitted),
{
}

} // verus!
