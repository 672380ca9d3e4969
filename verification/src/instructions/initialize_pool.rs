//! Opening an epoch: its pools and its result record.

use vstd::prelude::*;
use crate::address::Address;
use crate::constants::MAX_POOLS_PER_INIT;
use crate::errors::Errors;
use crate::state::{Config, EpochResult, EpochResultState, Pool};

verus! {

/// What opening an epoch works on: the caller, the configuration and the
/// place of the current epoch's result.
#[derive(Clone, Copy, Debug, PartialEq, Eq)]
pub struct StartContext {
    pub signer: Address,
    pub config: Config,
    /// The current epoch's result; `None` until the epoch is opened.
    pub epoch_result: Option<EpochResult>,
}

/// Why an epoch cannot be opened, if it cannot. `slots` is the number of
/// pool slots that were supplied.
pub open spec fn initialize_pool_error(
    ctx: StartContext,
    slots: nat,
    num_pools: u8,
    current_time: i64,
) -> Option<Errors> {
    if ctx.signer != ctx.config.resolver {
        Some(Errors::UnauthorizedResolver)
    } else if ctx.epoch_result is Some {
        Some(Errors::AlreadyInitialized)
    } else if num_pools > MAX_POOLS_PER_INIT {
        Some(Errors::TooManyPools)
    } else if slots < num_pools {
        Some(Errors::NotEnoughAccounts)
    } else if !(i64::MIN <= current_time + ctx.config.epoch_duration <= i64::MAX) {
        Some(Errors::InvalidAdd)
    } else {
        None
    }
}

/// The result record of an epoch that has just been opened with `num_pools`
/// pools: active until `current_time + epoch_duration`, nothing tallied.
pub open spec fn opened_epoch(config: Config, num_pools: u8, current_time: i64) -> EpochResult {
    EpochResult {
        epoch: config.current_epoch,
        weight: 0,
        total_position_amount: 0,
        end_at: (current_time + config.epoch_duration) as i64,
        winning_pool_id: 0,
        epoch_result_state: EpochResultState::Active,
        pool_count: num_pools,
        pool_weights: vstd::array::spec_array_fill_for_copy_type::<u64, 10>(0),
    }
}

/// The slots after the first `num_pools` of them were made the empty pools
/// `0 .. num_pools` of `epoch`; the others are as they were.
pub open spec fn opened_pools(slots: Seq<Pool>, num_pools: u8, epoch: u64) -> Seq<Pool> {
    Seq::new(
        slots.len(),
        |i: int|
            if i < num_pools {
                Pool::empty(i as u8, epoch)
            } else {
                slots[i]
            },
    )
}

/// Opens the current epoch. Only the resolver may do so, and only once for
/// each epoch. The first `num_pools` slots become the epoch's pools, each
/// empty and stamped with its index and the epoch; the epoch's result record
/// is created active, ending `epoch_duration` after `current_time`.
pub fn initialize_pool(
    ctx: &mut StartContext,
    slots: &mut Vec<Pool>,
    num_pools: u8,
    current_time: i64,
) -> (result: Result<(), Errors>)
    ensures
        match initialize_pool_error(*old(ctx), old(slots)@.len(), num_pools, current_time) {
            Some(e) => {
                &&& result == Err::<(), Errors>(e)
                &&& *final(ctx) == *old(ctx)
                &&& final(slots)@ == old(slots)@
            },
            None => {
                &&& result == Ok::<(), Errors>(())
                &&& *final(ctx) == (StartContext {
                    epoch_result: Some(opened_epoch(old(ctx).config, num_pools, current_time)),
                    ..*old(ctx)
                })
                &&& final(slots)@ == opened_pools(
                    old(slots)@,
                    num_pools,
                    old(ctx).config.current_epoch,
                )
            },
        },
{
    if ctx.signer != ctx.config.resolver {
        return Err(Errors::UnauthorizedResolver);
    }
    if ctx.epoch_result.is_some() {
        return Err(Errors::AlreadyInitialized);
    }
    if num_pools > MAX_POOLS_PER_INIT {
        return Err(Errors::TooManyPools);
    }
    if slots.len() < num_pools as usize {
        return Err(Errors::NotEnoughAccounts);
    }
    let end_at: i64 = match current_time.checked_add(ctx.config.epoch_duration) {
        Some(t) => t,
        None => {
            return Err(Errors::InvalidAdd);
        },
    };
    let current_epoch: u64 = ctx.config.current_epoch;
    let mut index: u8 = 0;
    while index < num_pools
        invariant
            index <= num_pools,
            num_pools <= slots@.len(),
            slots@ == opened_pools(old(slots)@, index, current_epoch),
        decreases num_pools - index,
    {
        slots.set(
            index as usize,
            Pool { total_positions: 0, total_weight: 0, id: index, epoch: current_epoch },
        );
        index += 1;
    }
    ctx.epoch_result = Some(EpochResult {
        epoch: current_epoch,
        weight: 0,
        total_position_amount: 0,
        end_at,
        winning_pool_id: 0,
        epoch_result_state: EpochResultState::Active,
        pool_count: num_pools,
        pool_weights: [0u64;10],
    });
    Ok(())
}

/// An epoch is opened well formed, and so is each of its pools: pool `i` is
/// the empty pool with index `i` of the current epoch.
pub proof fn lemma_opened_epoch_is_well_formed(
    config: Config,
    slots: Seq<Pool>,
    num_pools: u8,
    current_time: i64,
)
    requires
        num_pools <= MAX_POOLS_PER_INIT,
        num_pools <= slots.len(),
    ensures
        opened_epoch(config, num_pools, current_time).well_formed(),
        forall|i: int|
            0 <= i < num_pools ==> {
                let pool = #[trigger] opened_pools(slots, num_pools, config.current_epoch)[i];
                &&& pool.well_formed()
                &&& pool == Pool::empty(i as u8, config.current_epoch)
            },
{
}

/// An epoch is opened once: after it has been opened, opening it again is
/// refused, whatever the pools asked for and the time.
pub proof fn lemma_epoch_is_opened_once(
    ctx: StartContext,
    slots: nat,
    num_pools: u8,
    current_time: i64,
    later_slots: nat,
    later_num_pools: u8,
    later: i64,
)
    requires
        initialize_pool_error(ctx, slots, num_pools, current_time) is None,
    ensures
        initialize_pool_error(
            StartContext {
                epoch_result: Some(opened_epoch(ctx.config, num_pools, current_time)),
                ..ctx
            },
            later_slots,
            later_num_pools,
            later,
        ) == Some(Errors::AlreadyInitialized),
{
}

} // verus!
