//! Closing an epoch: tallying its pools, retiring them and fixing the
//! winner, either named by the resolver or drawn by the randomness oracle.

use vstd::prelude::*;
use crate::address::Address;
use crate::constants::MAX_POOLS_PER_INIT;
use crate::errors::Errors;
use crate::instructions::snapshot::{
    lemma_recording_twice_is_recording_once, lemma_snapshot_keeps_total_weight, pools_cover_epoch,
    record_weights, recorded_weight, snapshot_weights, total_weight,
};
use crate::randomness::{drawn_index, random_u8_with_range};
use crate::state::{Config, EpochResult, EpochResultState, Pool, ResolutionType};

verus! {

/// What a resolution works on: the caller, the configuration, the epoch's
/// result and the queue that randomness is requested from.
#[derive(Clone, Copy, Debug, PartialEq, Eq)]
pub struct ResolveContext {
    pub signer: Address,
    pub config: Config,
    pub epoch_result: EpochResult,
    pub oracle_queue: Address,
}

/// What the oracle's answer works on: who delivers it, and the records of
/// the epoch that waits for it.
#[derive(Clone, Copy, Debug, PartialEq, Eq)]
pub struct CallbackResolve {
    pub vrf_program_identity: Address,
    pub epoch_result: EpochResult,
    pub config: Config,
}

/// A request for randomness that the caller has to send to the oracle.
#[derive(Clone, Copy, Debug, PartialEq, Eq)]
pub struct RandomnessRequest {
    pub payer: Address,
    pub oracle_queue: Address,
    pub caller_seed: [u8; 32],
}

/// How far a call of [`resolve`] got.
#[derive(Clone, Copy, Debug, PartialEq, Eq)]
pub enum ResolveStep {
    /// The epoch is resolved.
    Resolved,
    /// The pool weights are recorded. The caller sends the request and then
    /// calls [`confirm_randomness_request`].
    AwaitRandomness(RandomnessRequest),
}

/// The number of positions in all the given pools.
pub open spec fn total_positions(pools: Seq<Pool>) -> int
    decreases pools.len(),
{
    if pools.len() == 0 {
        0
    } else {
        total_positions(pools.drop_last()) + pools.last().total_positions
    }
}

/// Why the given pools cannot be tallied as the pools of the current epoch,
/// if they cannot.
pub open spec fn aggregation_error(config: Config, pools: Seq<Pool>) -> Option<Errors> {
    if pools.len() > MAX_POOLS_PER_INIT {
        Some(Errors::TooManyPools)
    } else if exists|j: int|
        0 <= j < pools.len() && (#[trigger] pools[j]).epoch != config.current_epoch {
        Some(Errors::EpochMismatch)
    } else if exists|j: int| 0 <= j < pools.len() && !(#[trigger] pools[j]).well_formed() {
        Some(Errors::InvalidPoolId)
    } else if config.remaining_total_position + total_positions(pools) > u64::MAX {
        Some(Errors::InvalidAdd)
    } else if config.current_epoch + 1 > u64::MAX {
        Some(Errors::InvalidAdd)
    } else {
        None
    }
}

/// The configuration once the current epoch is tallied: the carry-over is
/// used up and the next epoch is current.
pub open spec fn aggregated_config(config: Config) -> Config {
    Config {
        remaining_total_position: 0,
        current_epoch: (config.current_epoch + 1) as u64,
        ..config
    }
}

/// The epoch's result once its pools are tallied: the positions of all
/// pools plus the carry-over, the number of pools, and each pool's weight.
pub open spec fn aggregated_epoch(
    config: Config,
    epoch_result: EpochResult,
    pools: Seq<Pool>,
) -> EpochResult {
    EpochResult {
        epoch: config.current_epoch,
        total_position_amount: (config.remaining_total_position + total_positions(pools)) as u64,
        pool_count: pools.len() as u8,
        pool_weights: snapshot_weights(epoch_result.pool_weights, pools),
        ..epoch_result
    }
}

/// The configuration after pool `index` has been made the winner: when
/// nobody committed to it, the epoch's positions are carried over.
pub open spec fn settled_config(config: Config, epoch_result: EpochResult, index: u8) -> Config {
    if epoch_result.pool_weights[index as int] == 0 {
        Config { remaining_total_position: epoch_result.total_position_amount, ..config }
    } else {
        config
    }
}

/// The epoch's result after pool `index` has been made the winner.
pub open spec fn settled_epoch(epoch_result: EpochResult, index: u8) -> EpochResult {
    EpochResult {
        weight: epoch_result.pool_weights[index as int],
        winning_pool_id: index,
        epoch_result_state: EpochResultState::Resolved,
        ..epoch_result
    }
}

/// Why a resolution cannot start, if it cannot: the caller is not the
/// resolver, the result is not that of the current epoch, the epoch is not
/// active, or it has not ended.
pub open spec fn resolution_entry_error(ctx: ResolveContext, current_time: i64) -> Option<
    Errors,
> {
    if ctx.signer != ctx.config.resolver {
        Some(Errors::UnauthorizedResolver)
    } else if ctx.epoch_result.epoch != ctx.config.current_epoch {
        Some(Errors::EpochMismatch)
    } else if ctx.epoch_result.epoch_result_state != EpochResultState::Active {
        Some(Errors::InvalidEpochState)
    } else if current_time < ctx.epoch_result.end_at {
        Some(Errors::EpochNotEnded)
    } else {
        None
    }
}

/// Why [`resolve`] fails, if it does.
pub open spec fn resolve_error(
    ctx: ResolveContext,
    pools: Seq<Pool>,
    client_seed: u8,
    current_time: i64,
) -> Option<Errors> {
    if resolution_entry_error(ctx, current_time) is Some {
        resolution_entry_error(ctx, current_time)
    } else if ctx.config.resolution_type == ResolutionType::Admin && client_seed
        >= MAX_POOLS_PER_INIT {
        Some(Errors::WinningPoolNotFound)
    } else {
        aggregation_error(ctx.config, pools)
    }
}

/// The records after the resolver has resolved the epoch to pool `index`.
pub open spec fn resolved_by_authority(
    ctx: ResolveContext,
    pools: Seq<Pool>,
    index: u8,
) -> ResolveContext {
    let tallied = aggregated_epoch(ctx.config, ctx.epoch_result, pools);
    ResolveContext {
        config: settled_config(aggregated_config(ctx.config), tallied, index),
        epoch_result: settled_epoch(tallied, index),
        ..ctx
    }
}

/// The records after the pool weights have been recorded for the oracle's
/// later answer.
pub open spec fn weights_recorded(ctx: ResolveContext, pools: Seq<Pool>) -> ResolveContext {
    ResolveContext {
        epoch_result: EpochResult {
            pool_count: pools.len() as u8,
            pool_weights: snapshot_weights(ctx.epoch_result.pool_weights, pools),
            ..ctx.epoch_result
        },
        ..ctx
    }
}

/// The request that goes to the oracle: paid by the resolver, seeded with
/// 32 copies of `client_seed`.
pub open spec fn randomness_request(ctx: ResolveContext, client_seed: u8) -> RandomnessRequest {
    RandomnessRequest {
        payer: ctx.signer,
        oracle_queue: ctx.oracle_queue,
        caller_seed: vstd::array::spec_array_fill_for_copy_type::<u8, 32>(client_seed),
    }
}

/// Why [`confirm_randomness_request`] fails, if it does.
pub open spec fn confirmation_error(
    ctx: ResolveContext,
    pools: Seq<Pool>,
    current_time: i64,
) -> Option<Errors> {
    if resolution_entry_error(ctx, current_time) is Some {
        resolution_entry_error(ctx, current_time)
    } else if ctx.config.resolution_type != ResolutionType::Oracle {
        Some(Errors::UnsupportedResolution)
    } else {
        aggregation_error(ctx.config, pools)
    }
}

/// The records after the randomness request went out: the epoch is tallied
/// and waits for the oracle.
pub open spec fn request_confirmed(ctx: ResolveContext, pools: Seq<Pool>) -> ResolveContext {
    ResolveContext {
        config: aggregated_config(ctx.config),
        epoch_result: EpochResult {
            epoch_result_state: EpochResultState::Pending,
            ..aggregated_epoch(ctx.config, ctx.epoch_result, pools)
        },
        ..ctx
    }
}

/// Why the oracle's answer is refused whatever index it selects, if it is:
/// it does not come from the trusted oracle identity, the epoch does not
/// wait for it, or the epoch declares no pool or more pools than an epoch
/// can hold.
pub open spec fn callback_entry_error(ctx: CallbackResolve, trusted_identity: Address) -> Option<
    Errors,
> {
    if ctx.vrf_program_identity != trusted_identity {
        Some(Errors::Unauthorized)
    } else if ctx.epoch_result.epoch_result_state != EpochResultState::Pending {
        Some(Errors::InvalidEpochState)
    } else if ctx.epoch_result.pool_count == 0 {
        Some(Errors::NoPoolsProvided)
    } else if ctx.epoch_result.pool_count > MAX_POOLS_PER_INIT {
        Some(Errors::TooManyPools)
    } else {
        None
    }
}

/// Why the oracle's answer is refused when it selects `index`, if it is.
pub open spec fn callback_error(
    ctx: CallbackResolve,
    trusted_identity: Address,
    index: u8,
) -> Option<Errors> {
    if callback_entry_error(ctx, trusted_identity) is Some {
        callback_entry_error(ctx, trusted_identity)
    } else if index >= ctx.epoch_result.pool_count {
        Some(Errors::WinningPoolNotFound)
    } else {
        None
    }
}

/// The records after the oracle's answer has made pool `index` the winner.
pub open spec fn callback_settled(ctx: CallbackResolve, index: u8) -> CallbackResolve {
    CallbackResolve {
        config: settled_config(ctx.config, ctx.epoch_result, index),
        epoch_result: settled_epoch(ctx.epoch_result, index),
        ..ctx
    }
}

fn pools_of_epoch(pools: &Vec<Pool>, epoch: u64) -> (ok: bool)
    ensures
        ok == (forall|j: int| 0 <= j < pools@.len() ==> (#[trigger] pools@[j]).epoch == epoch),
{
    let mut j: usize = 0;
    while j < pools.len()
        invariant
            j <= pools@.len(),
            forall|k: int| 0 <= k < j ==> (#[trigger] pools@[k]).epoch == epoch,
        decreases pools@.len() - j,
    {
        if pools[j].epoch != epoch {
            return false;
        }
        j += 1;
    }
    true
}

fn pools_well_formed(pools: &Vec<Pool>) -> (ok: bool)
    ensures
        ok == (forall|j: int| 0 <= j < pools@.len() ==> (#[trigger] pools@[j]).well_formed()),
{
    let mut j: usize = 0;
    while j < pools.len()
        invariant
            j <= pools@.len(),
            forall|k: int| 0 <= k < j ==> (#[trigger] pools@[k]).well_formed(),
        decreases pools@.len() - j,
    {
        if pools[j].id >= MAX_POOLS_PER_INIT {
            return false;
        }
        j += 1;
    }
    true
}

/// The positions of some of the pools are no more than those of all.
proof fn lemma_total_positions_of_prefix(pools: Seq<Pool>, k: int)
    requires
        0 <= k <= pools.len(),
    ensures
        0 <= total_positions(pools.take(k)) <= total_positions(pools),
    decreases pools.len() - k,
{
    if k == pools.len() {
        assert(pools.take(k) =~= pools);
        lemma_total_positions_nonnegative(pools);
    } else {
        lemma_total_positions_of_prefix(pools, k + 1);
        assert(pools.take(k + 1).drop_last() =~= pools.take(k));
        lemma_total_positions_nonnegative(pools.take(k));
    }
}

proof fn lemma_total_positions_nonnegative(pools: Seq<Pool>)
    ensures
        0 <= total_positions(pools),
    decreases pools.len(),
{
    if pools.len() > 0 {
        lemma_total_positions_nonnegative(pools.drop_last());
    }
}

/// Checks that the pools can be tallied, and counts their positions
/// together with the carry-over.
fn check_aggregation(config: &Config, pools: &Vec<Pool>) -> (result: Result<u64, Errors>)
    ensures
        match aggregation_error(*config, pools@) {
            Some(e) => result == Err::<u64, Errors>(e),
            None => result == Ok::<u64, Errors>(
                (config.remaining_total_position + total_positions(pools@)) as u64,
            ),
        },
{
    if pools.len() > MAX_POOLS_PER_INIT as usize {
        return Err(Errors::TooManyPools);
    }
    if !pools_of_epoch(pools, config.current_epoch) {
        return Err(Errors::EpochMismatch);
    }
    if !pools_well_formed(pools) {
        return Err(Errors::InvalidPoolId);
    }
    let mut total_position_amount: u64 = config.remaining_total_position;
    let mut j: usize = 0;
    while j < pools.len()
        invariant
            j <= pools@.len(),
            pools@.len() <= MAX_POOLS_PER_INIT,
            forall|k: int|
                0 <= k < pools@.len() ==> (#[trigger] pools@[k]).epoch == config.current_epoch,
            forall|k: int| 0 <= k < pools@.len() ==> (#[trigger] pools@[k]).well_formed(),
            total_position_amount == config.remaining_total_position + total_positions(
                pools@.take(j as int),
            ),
        decreases pools@.len() - j,
    {
        proof {
            assert(pools@.take(j + 1).drop_last() =~= pools@.take(j as int));
            assert(pools@.take(j + 1).last() == pools@[j as int]);
            lemma_total_positions_of_prefix(pools@, j + 1);
        }
        total_position_amount = match total_position_amount.checked_add(pools[j].total_positions) {
            Some(t) => t,
            None => {
                return Err(Errors::InvalidAdd);
            },
        };
        j += 1;
    }
    proof {
        assert(pools@.take(j as int) =~= pools@);
    }
    if config.current_epoch == u64::MAX {
        return Err(Errors::InvalidAdd);
    }
    Ok(total_position_amount)
}

/// Tallies the pools of the current epoch into its result, retires them and
/// makes the next epoch current.
fn weight_and_reward_split_with_delete(
    accounts: &mut ResolveContext,
    pools: &mut Vec<Pool>,
) -> (result: Result<(), Errors>)
    ensures
        match aggregation_error(old(accounts).config, old(pools)@) {
            Some(e) => {
                &&& result == Err::<(), Errors>(e)
                &&& *final(accounts) == *old(accounts)
                &&& final(pools)@ == old(pools)@
            },
            None => {
                &&& result == Ok::<(), Errors>(())
                &&& *final(accounts) == (ResolveContext {
                    config: aggregated_config(old(accounts).config),
                    epoch_result: aggregated_epoch(
                        old(accounts).config,
                        old(accounts).epoch_result,
                        old(pools)@,
                    ),
                    ..*old(accounts)
                })
                &&& final(pools)@ == Seq::<Pool>::empty()
            },
        },
{
    let total_position_amount: u64 = match check_aggregation(&accounts.config, pools) {
        Ok(t) => t,
        Err(e) => {
            return Err(e);
        },
    };
    let current_epoch: u64 = accounts.config.current_epoch;
    accounts.epoch_result.pool_weights = record_weights(accounts.epoch_result.pool_weights, pools);
    accounts.epoch_result.pool_count = pools.len() as u8;
    accounts.epoch_result.total_position_amount = total_position_amount;
    accounts.epoch_result.epoch = current_epoch;
    accounts.config.remaining_total_position = 0;
    accounts.config.current_epoch = current_epoch + 1;
    pools.clear();
    Ok(())
}

/// Makes pool `index` the winner of a tallied epoch.
fn settle(config: &mut Config, epoch_result: &mut EpochResult, index: u8)
    requires
        index < MAX_POOLS_PER_INIT,
    ensures
        *final(config) == settled_config(*old(config), *old(epoch_result), index),
        *final(epoch_result) == settled_epoch(*old(epoch_result), index),
{
    let weight: u64 = epoch_result.pool_weights[index as usize];
    if weight == 0 {
        config.remaining_total_position = epoch_result.total_position_amount;
    }
    epoch_result.weight = weight;
    epoch_result.winning_pool_id = index;
    epoch_result.epoch_result_state = EpochResultState::Resolved;
}

fn check_resolution_entry(ctx: &ResolveContext, current_time: i64) -> (result: Option<Errors>)
    ensures
        result == resolution_entry_error(*ctx, current_time),
{
    if ctx.signer != ctx.config.resolver {
        Some(Errors::UnauthorizedResolver)
    } else if ctx.epoch_result.epoch != ctx.config.current_epoch {
        Some(Errors::EpochMismatch)
    } else if ctx.epoch_result.epoch_result_state != EpochResultState::Active {
        Some(Errors::InvalidEpochState)
    } else if current_time < ctx.epoch_result.end_at {
        Some(Errors::EpochNotEnded)
    } else {
        None
    }
}

/// Resolves the current epoch, or starts to. Only the resolver may do so,
/// and only once the epoch has ended.
///
/// Where the resolver names the winner, `client_seed` is the winning pool's
/// index: the pools are tallied and retired, the next epoch becomes current
/// and the epoch is resolved. When nobody committed to the winner, the
/// epoch's positions are carried over to the next epoch.
///
/// Where the oracle draws the winner, the pools' weights are recorded in the
/// epoch's result and the request to send is returned, with `client_seed` as
/// its seed. The pools stay as they are until the request has gone out: see
/// [`confirm_randomness_request`].
pub fn resolve(
    ctx: &mut ResolveContext,
    pools: &mut Vec<Pool>,
    client_seed: u8,
    current_time: i64,
) -> (result: Result<ResolveStep, Errors>)
    ensures
        match resolve_error(*old(ctx), old(pools)@, client_seed, current_time) {
            Some(e) => {
                &&& result == Err::<ResolveStep, Errors>(e)
                &&& *final(ctx) == *old(ctx)
                &&& final(pools)@ == old(pools)@
            },
            None => match old(ctx).config.resolution_type {
                ResolutionType::Admin => {
                    &&& result == Ok::<ResolveStep, Errors>(ResolveStep::Resolved)
                    &&& *final(ctx) == resolved_by_authority(*old(ctx), old(pools)@, client_seed)
                    &&& final(pools)@ == Seq::<Pool>::empty()
                },
                ResolutionType::Oracle => {
                    &&& result == Ok::<ResolveStep, Errors>(
                        ResolveStep::AwaitRandomness(randomness_request(*old(ctx), client_seed)),
                    )
                    &&& *final(ctx) == weights_recorded(*old(ctx), old(pools)@)
                    &&& final(pools)@ == old(pools)@
                },
            },
        },
{
    match check_resolution_entry(ctx, current_time) {
        Some(e) => {
            return Err(e);
        },
        None => {},
    }
    match ctx.config.resolution_type {
        ResolutionType::Admin => {
            if client_seed >= MAX_POOLS_PER_INIT {
                return Err(Errors::WinningPoolNotFound);
            }
            match weight_and_reward_split_with_delete(ctx, pools) {
                Ok(()) => {},
                Err(e) => {
                    return Err(e);
                },
            }
            let mut config: Config = ctx.config;
            let mut epoch_result: EpochResult = ctx.epoch_result;
            settle(&mut config, &mut epoch_result, client_seed);
            ctx.config = config;
            ctx.epoch_result = epoch_result;
            Ok(ResolveStep::Resolved)
        },
        ResolutionType::Oracle => {
            match check_aggregation(&ctx.config, pools) {
                Ok(_) => {},
                Err(e) => {
                    return Err(e);
                },
            }
            ctx.epoch_result.pool_weights = record_weights(ctx.epoch_result.pool_weights, pools);
            ctx.epoch_result.pool_count = pools.len() as u8;
            Ok(
                ResolveStep::AwaitRandomness(
                    RandomnessRequest {
                        payer: ctx.signer,
                        oracle_queue: ctx.oracle_queue,
                        caller_seed: [client_seed;32],
                    },
                ),
            )
        },
    }
}

/// Completes the first phase of an oracle resolution, after the request
/// that [`resolve`] returned has been sent: the pools are tallied and
/// retired, the next epoch becomes current, and the epoch waits for the
/// oracle's answer.
pub fn confirm_randomness_request(
    ctx: &mut ResolveContext,
    pools: &mut Vec<Pool>,
    current_time: i64,
) -> (result: Result<(), Errors>)
    ensures
        match confirmation_error(*old(ctx), old(pools)@, current_time) {
            Some(e) => {
                &&& result == Err::<(), Errors>(e)
                &&& *final(ctx) == *old(ctx)
                &&& final(pools)@ == old(pools)@
            },
            None => {
                &&& result == Ok::<(), Errors>(())
                &&& *final(ctx) == request_confirmed(*old(ctx), old(pools)@)
                &&& final(pools)@ == Seq::<Pool>::empty()
            },
        },
{
    match check_resolution_entry(ctx, current_time) {
        Some(e) => {
            return Err(e);
        },
        None => {},
    }
    if ctx.config.resolution_type != ResolutionType::Oracle {
        return Err(Errors::UnsupportedResolution);
    }
    match weight_and_reward_split_with_delete(ctx, pools) {
        Ok(()) => {},
        Err(e) => {
            return Err(e);
        },
    }
    ctx.epoch_result.epoch_result_state = EpochResultState::Pending;
    Ok(())
}

/// Finishes an oracle resolution with the index that was drawn. Only the
/// trusted oracle identity may deliver it, only to an epoch that waits for
/// it, and the index has to be one of the epoch's pools. When nobody
/// committed to the winner, the epoch's positions are carried over to the
/// next epoch.
pub fn callback_resolve_with_index(
    ctx: &mut CallbackResolve,
    trusted_identity: &Address,
    index: u8,
) -> (result: Result<(), Errors>)
    ensures
        match callback_error(*old(ctx), *trusted_identity, index) {
            Some(e) => {
                &&& result == Err::<(), Errors>(e)
                &&& *final(ctx) == *old(ctx)
            },
            None => {
                &&& result == Ok::<(), Errors>(())
                &&& *final(ctx) == callback_settled(*old(ctx), index)
            },
        },
{
    if ctx.vrf_program_identity != *trusted_identity {
        return Err(Errors::Unauthorized);
    }
    if ctx.epoch_result.epoch_result_state != EpochResultState::Pending {
        return Err(Errors::InvalidEpochState);
    }
    if ctx.epoch_result.pool_count == 0 {
        return Err(Errors::NoPoolsProvided);
    }
    if ctx.epoch_result.pool_count > MAX_POOLS_PER_INIT {
        return Err(Errors::TooManyPools);
    }
    if index >= ctx.epoch_result.pool_count {
        return Err(Errors::WinningPoolNotFound);
    }
    let mut config: Config = ctx.config;
    let mut epoch_result: EpochResult = ctx.epoch_result;
    settle(&mut config, &mut epoch_result, index);
    ctx.config = config;
    ctx.epoch_result = epoch_result;
    Ok(())
}

/// Finishes an oracle resolution with the oracle's 32 random bytes. Only
/// the trusted oracle identity may deliver them, and only to an epoch that
/// waits for them and declares between one and ten pools. The winner is the
/// index that the bytes select among the epoch's pools: it is always one of
/// them. When nobody committed to the winner, the epoch's positions are
/// carried over to the next epoch.
pub fn callback_resolve(
    ctx: &mut CallbackResolve,
    trusted_identity: &Address,
    randomness: [u8; 32],
) -> (result: Result<(), Errors>)
    ensures
        match callback_entry_error(*old(ctx), *trusted_identity) {
            Some(e) => {
                &&& result == Err::<(), Errors>(e)
                &&& *final(ctx) == *old(ctx)
            },
            None => {
                &&& result == Ok::<(), Errors>(())
                &&& drawn_index(randomness@, old(ctx).epoch_result.pool_count) < old(
                    ctx,
                ).epoch_result.pool_count
                &&& *final(ctx) == callback_settled(
                    *old(ctx),
                    drawn_index(randomness@, old(ctx).epoch_result.pool_count),
                )
            },
        },
{
    let pool_count: u8 = ctx.epoch_result.pool_count;
    let index: u8 = if pool_count >= 1 {
        random_u8_with_range(&randomness, 0, pool_count - 1)
    } else {
        0
    };
    callback_resolve_with_index(ctx, trusted_identity, index)
}

/// Each resolution closes exactly one epoch. Where the resolver names the
/// winner, the epoch that was current is resolved under its own number and
/// the next number becomes current. Where the oracle draws the winner,
/// recording the weights leaves the current epoch as it is, confirming the
/// request closes the epoch under its own number and makes the next number
/// current, and the oracle's answer changes neither number.
pub proof fn lemma_epoch_advances_once_per_resolution(
    ctx: ResolveContext,
    pools: Seq<Pool>,
    client_seed: u8,
    answer: CallbackResolve,
    index: u8,
)
    requires
        aggregation_error(ctx.config, pools) is None,
    ensures
        resolved_by_authority(ctx, pools, client_seed).config.current_epoch
            == ctx.config.current_epoch + 1,
        resolved_by_authority(ctx, pools, client_seed).epoch_result.epoch
            == ctx.config.current_epoch,
        weights_recorded(ctx, pools).config.current_epoch == ctx.config.current_epoch,
        weights_recorded(ctx, pools).epoch_result.epoch == ctx.epoch_result.epoch,
        request_confirmed(ctx, pools).config.current_epoch == ctx.config.current_epoch + 1,
        request_confirmed(ctx, pools).epoch_result.epoch == ctx.config.current_epoch,
        callback_settled(answer, index).config.current_epoch == answer.config.current_epoch,
        callback_settled(answer, index).epoch_result.epoch == answer.epoch_result.epoch,
{
}

/// An epoch only moves forward, and a resolved epoch is final: a resolution
/// starts from an active epoch only, the oracle's answer is taken by a
/// pending epoch only, and each of them leaves the epoch in a later state.
pub proof fn lemma_epoch_state_only_advances(
    ctx: ResolveContext,
    pools: Seq<Pool>,
    client_seed: u8,
    current_time: i64,
    answer: CallbackResolve,
    trusted_identity: Address,
    index: u8,
)
    ensures
        ctx.epoch_result.epoch_result_state != EpochResultState::Active ==> {
            &&& resolve_error(ctx, pools, client_seed, current_time) is Some
            &&& confirmation_error(ctx, pools, current_time) is Some
        },
        answer.epoch_result.epoch_result_state != EpochResultState::Pending ==> callback_error(
            answer,
            trusted_identity,
            index,
        ) is Some,
        resolved_by_authority(ctx, pools, client_seed).epoch_result.epoch_result_state
            == EpochResultState::Resolved,
        weights_recorded(ctx, pools).epoch_result.epoch_result_state
            == ctx.epoch_result.epoch_result_state,
        request_confirmed(ctx, pools).epoch_result.epoch_result_state == EpochResultState::Pending,
        callback_settled(answer, index).epoch_result.epoch_result_state
            == EpochResultState::Resolved,
{
}

/// A request that was recorded can be confirmed: once [`resolve`] has
/// returned the request to send, [`confirm_randomness_request`] succeeds on
/// the same pools at any later time, and the snapshot it leaves is the one
/// that was recorded.
pub proof fn lemma_recorded_request_can_be_confirmed(
    ctx: ResolveContext,
    pools: Seq<Pool>,
    client_seed: u8,
    current_time: i64,
    later: i64,
)
    requires
        ctx.config.resolution_type == ResolutionType::Oracle,
        resolve_error(ctx, pools, client_seed, current_time) is None,
        current_time <= later,
    ensures
        confirmation_error(weights_recorded(ctx, pools), pools, later) is None,
        request_confirmed(weights_recorded(ctx, pools), pools).epoch_result.pool_weights
            == weights_recorded(ctx, pools).epoch_result.pool_weights,
{
    lemma_recording_twice_is_recording_once(ctx.epoch_result.pool_weights, pools);
}

/// Resolution leaves the epoch's result well formed, and with it the
/// oracle's answer.
pub proof fn lemma_resolution_keeps_epoch_well_formed(
    ctx: ResolveContext,
    pools: Seq<Pool>,
    client_seed: u8,
    current_time: i64,
    answer: CallbackResolve,
    trusted_identity: Address,
    index: u8,
)
    ensures
        resolve_error(ctx, pools, client_seed, current_time) is None
            && ctx.config.resolution_type == ResolutionType::Admin ==> resolved_by_authority(
            ctx,
            pools,
            client_seed,
        ).epoch_result.well_formed(),
        resolve_error(ctx, pools, client_seed, current_time) is None
            && ctx.config.resolution_type == ResolutionType::Oracle ==> weights_recorded(
            ctx,
            pools,
        ).epoch_result.well_formed(),
        confirmation_error(ctx, pools, current_time) is None ==> request_confirmed(
            ctx,
            pools,
        ).epoch_result.well_formed(),
        callback_error(answer, trusted_identity, index) is None ==> callback_settled(
            answer,
            index,
        ).epoch_result.well_formed(),
{
}

/// After a resolution the snapshot accounts for all the weight: when the
/// pools handed in are all the pools of the epoch, the entries that the
/// epoch's result declares valid add up to the total weight that the pools
/// had before they were retired. The oracle's answer does not change that.
pub proof fn lemma_resolution_records_total_weight(
    ctx: ResolveContext,
    pools: Seq<Pool>,
    client_seed: u8,
)
    requires
        pools_cover_epoch(pools),
    ensures
        ({
            let resolved = resolved_by_authority(ctx, pools, client_seed).epoch_result;
            recorded_weight(resolved.pool_weights@, resolved.pool_count as int) == total_weight(
                pools,
            )
        }),
        ({
            let recorded = weights_recorded(ctx, pools).epoch_result;
            recorded_weight(recorded.pool_weights@, recorded.pool_count as int) == total_weight(
                pools,
            )
        }),
        ({
            let pending = request_confirmed(ctx, pools).epoch_result;
            &&& recorded_weight(pending.pool_weights@, pending.pool_count as int) == total_weight(
                pools,
            )
            &&& forall|answer: CallbackResolve, index: u8|
                answer.epoch_result == pending ==> {
                    let settled = #[trigger] callback_settled(answer, index).epoch_result;
                    recorded_weight(settled.pool_weights@, settled.pool_count as int)
                        == total_weight(pools)
                }
        }),
{
    lemma_snapshot_keeps_total_weight(ctx.epoch_result.pool_weights, pools);
}

} // verus!
