use epoch_lottery::address::Address;
use epoch_lottery::errors::Errors;
use epoch_lottery::instructions::{
    callback_resolve, callback_resolve_with_index, confirm_randomness_request, resolve,
    CallbackResolve, RandomnessRequest, ResolveContext, ResolveStep,
};
use epoch_lottery::state::{
    Config, EpochResult, EpochResultState, Pool, ResolutionType, WeightModel,
};

fn address(tag: u8) -> Address {
    Address::new([tag; 32])
}

fn resolver() -> Address {
    address(2)
}

fn oracle() -> Address {
    address(9)
}

fn config(resolution_type: ResolutionType) -> Config {
    Config {
        admin: address(1),
        resolver: resolver(),
        current_epoch: 4,
        total_positions_minted: 10,
        position_price: 1_000,
        remaining_total_position: 0,
        allowed_mint: address(3),
        treasury_ata: address(4),
        weight_model: WeightModel::Constant,
        resolution_type,
        epoch_duration: 600,
        weight_rate_numerator: 10,
        weight_rate_denominator: 300,
    }
}

fn active_epoch(pool_count: u8) -> EpochResult {
    EpochResult {
        epoch: 4,
        weight: 0,
        total_position_amount: 0,
        end_at: 1_000,
        winning_pool_id: 0,
        epoch_result_state: EpochResultState::Active,
        pool_count,
        pool_weights: [0; 10],
    }
}

fn context(resolution_type: ResolutionType) -> ResolveContext {
    ResolveContext {
        signer: resolver(),
        config: config(resolution_type),
        epoch_result: active_epoch(3),
        oracle_queue: address(5),
    }
}

fn three_pools() -> Vec<Pool> {
    vec![
        Pool { total_positions: 0, total_weight: 0, id: 0, epoch: 4 },
        Pool { total_positions: 4, total_weight: 200, id: 1, epoch: 4 },
        Pool { total_positions: 6, total_weight: 300, id: 2, epoch: 4 },
    ]
}

fn pending(pool_count: u8, weights: [u64; 10]) -> CallbackResolve {
    CallbackResolve {
        vrf_program_identity: oracle(),
        epoch_result: EpochResult {
            epoch: 4,
            weight: 0,
            total_position_amount: 10,
            end_at: 1_000,
            winning_pool_id: 0,
            epoch_result_state: EpochResultState::Pending,
            pool_count,
            pool_weights: weights,
        },
        config: Config { current_epoch: 5, ..config(ResolutionType::Oracle) },
    }
}

#[test]
fn authority_resolves_to_an_empty_pool_and_carries_the_positions_over() {
    let mut ctx = context(ResolutionType::Admin);
    let mut pools = three_pools();
    assert_eq!(resolve(&mut ctx, &mut pools, 0, 1_000), Ok(ResolveStep::Resolved));
    assert_eq!(ctx.epoch_result.total_position_amount, 10);
    assert_eq!(ctx.epoch_result.winning_pool_id, 0);
    assert_eq!(ctx.epoch_result.weight, 0);
    assert_eq!(ctx.epoch_result.epoch_result_state, EpochResultState::Resolved);
    assert_eq!(ctx.config.remaining_total_position, 10);
    assert!(pools.is_empty());

    let mut next = ResolveContext {
        signer: resolver(),
        config: ctx.config,
        epoch_result: EpochResult { epoch: 5, end_at: 2_000, ..active_epoch(2) },
        oracle_queue: address(5),
    };
    let mut next_pools = vec![
        Pool { total_positions: 3, total_weight: 30_000, id: 0, epoch: 5 },
        Pool { total_positions: 2, total_weight: 20_000, id: 1, epoch: 5 },
    ];
    assert_eq!(resolve(&mut next, &mut next_pools, 1, 2_000), Ok(ResolveStep::Resolved));
    assert_eq!(next.epoch_result.total_position_amount, 15);
    assert_eq!(next.epoch_result.weight, 20_000);
    assert_eq!(next.config.remaining_total_position, 0);
    assert_eq!(next.config.current_epoch, 6);
}

#[test]
fn authority_resolution_fills_in_the_whole_result() {
    let mut ctx = context(ResolutionType::Admin);
    let mut pools = three_pools();
    assert_eq!(resolve(&mut ctx, &mut pools, 2, 1_500), Ok(ResolveStep::Resolved));
    assert_eq!(
        ctx.epoch_result,
        EpochResult {
            epoch: 4,
            weight: 300,
            total_position_amount: 10,
            end_at: 1_000,
            winning_pool_id: 2,
            epoch_result_state: EpochResultState::Resolved,
            pool_count: 3,
            pool_weights: [0, 200, 300, 0, 0, 0, 0, 0, 0, 0],
        }
    );
    assert_eq!(ctx.config, Config { current_epoch: 5, ..config(ResolutionType::Admin) });
    assert_eq!(ctx.signer, resolver());
    assert_eq!(ctx.oracle_queue, address(5));
}

#[test]
fn recorded_weights_add_up_to_the_pools_total() {
    let mut ctx = context(ResolutionType::Admin);
    let mut pools = vec![
        Pool { total_positions: 1, total_weight: 70, id: 2, epoch: 4 },
        Pool { total_positions: 1, total_weight: 11, id: 0, epoch: 4 },
        Pool { total_positions: 1, total_weight: 500, id: 3, epoch: 4 },
        Pool { total_positions: 1, total_weight: 9, id: 1, epoch: 4 },
    ];
    let total: u64 = pools.iter().map(|pool| pool.total_weight).sum();
    assert_eq!(resolve(&mut ctx, &mut pools, 3, 1_000), Ok(ResolveStep::Resolved));
    let count = ctx.epoch_result.pool_count as usize;
    assert_eq!(count, 4);
    assert_eq!(ctx.epoch_result.pool_weights[..count].iter().sum::<u64>(), total);
    assert_eq!(ctx.epoch_result.pool_weights, [11, 9, 70, 500, 0, 0, 0, 0, 0, 0]);
}

#[test]
fn resolution_before_the_end_is_refused() {
    let mut ctx = context(ResolutionType::Admin);
    let mut pools = three_pools();
    let before = ctx;
    assert_eq!(resolve(&mut ctx, &mut pools, 1, 999), Err(Errors::EpochNotEnded));
    assert_eq!(ctx, before);
    assert_eq!(pools, three_pools());
    assert_eq!(
        confirm_randomness_request(&mut ctx, &mut pools, 999),
        Err(Errors::EpochNotEnded)
    );
}

#[test]
fn resolution_by_someone_else_is_refused() {
    let mut ctx = context(ResolutionType::Admin);
    ctx.signer = address(1);
    let mut pools = three_pools();
    let before = ctx;
    assert_eq!(resolve(&mut ctx, &mut pools, 1, 1_000), Err(Errors::UnauthorizedResolver));
    assert_eq!(ctx, before);
    assert_eq!(pools, three_pools());
    assert_eq!(
        confirm_randomness_request(&mut ctx, &mut pools, 1_000),
        Err(Errors::UnauthorizedResolver)
    );
}

#[test]
fn authorization_is_checked_before_the_time() {
    let mut ctx = context(ResolutionType::Oracle);
    ctx.signer = address(8);
    let mut pools = three_pools();
    assert_eq!(resolve(&mut ctx, &mut pools, 1, 0), Err(Errors::UnauthorizedResolver));
}

#[test]
fn resolution_of_another_epochs_result_is_refused() {
    let mut ctx = context(ResolutionType::Admin);
    ctx.epoch_result.epoch = 3;
    let mut pools = three_pools();
    let before = ctx;
    assert_eq!(resolve(&mut ctx, &mut pools, 1, 1_000), Err(Errors::EpochMismatch));
    assert_eq!(ctx, before);
}

#[test]
fn resolution_starts_from_an_active_epoch_only() {
    for state in [EpochResultState::Pending, EpochResultState::Resolved] {
        for resolution_type in [ResolutionType::Admin, ResolutionType::Oracle] {
            let mut ctx = context(resolution_type);
            ctx.epoch_result.epoch_result_state = state;
            let mut pools = three_pools();
            let before = ctx;
            assert_eq!(resolve(&mut ctx, &mut pools, 1, 1_000), Err(Errors::InvalidEpochState));
            assert_eq!(
                confirm_randomness_request(&mut ctx, &mut pools, 1_000),
                Err(Errors::InvalidEpochState)
            );
            assert_eq!(ctx, before);
            assert_eq!(pools, three_pools());
        }
    }
}

#[test]
fn pool_of_another_epoch_is_refused() {
    let mut ctx = context(ResolutionType::Admin);
    let mut pools = three_pools();
    pools[2].epoch = 5;
    let handed_in = pools.clone();
    let before = ctx;
    assert_eq!(resolve(&mut ctx, &mut pools, 1, 1_000), Err(Errors::EpochMismatch));
    assert_eq!(ctx, before);
    assert_eq!(pools, handed_in);
}

#[test]
fn pool_with_an_index_beyond_the_snapshot_is_refused() {
    let mut ctx = context(ResolutionType::Admin);
    let mut pools = three_pools();
    pools[1].id = 10;
    let before = ctx;
    assert_eq!(resolve(&mut ctx, &mut pools, 1, 1_000), Err(Errors::InvalidPoolId));
    assert_eq!(ctx, before);
    pools[1].id = 9;
    assert_eq!(resolve(&mut ctx, &mut pools, 9, 1_000), Ok(ResolveStep::Resolved));
    assert_eq!(ctx.epoch_result.weight, 200);
}

#[test]
fn more_pools_than_an_epoch_holds_are_refused() {
    let mut ctx = context(ResolutionType::Admin);
    let mut pools: Vec<Pool> = (0..11u8)
        .map(|i| Pool { total_positions: 1, total_weight: 10_000, id: i % 10, epoch: 4 })
        .collect();
    let before = ctx;
    assert_eq!(resolve(&mut ctx, &mut pools, 1, 1_000), Err(Errors::TooManyPools));
    assert_eq!(ctx, before);
    assert_eq!(pools.len(), 11);
    pools.pop();
    assert_eq!(resolve(&mut ctx, &mut pools, 1, 1_000), Ok(ResolveStep::Resolved));
    assert_eq!(ctx.epoch_result.pool_count, 10);
    assert_eq!(ctx.epoch_result.total_position_amount, 10);
}

#[test]
fn overflowing_position_total_is_refused() {
    let mut ctx = context(ResolutionType::Admin);
    let mut pools = three_pools();
    pools[0].total_positions = u64::MAX - 9;
    let before = ctx;
    assert_eq!(resolve(&mut ctx, &mut pools, 1, 1_000), Err(Errors::InvalidAdd));
    assert_eq!(ctx, before);
    assert_eq!(pools.len(), 3);

    let mut carried = context(ResolutionType::Admin);
    carried.config.remaining_total_position = u64::MAX - 9;
    let mut pools = three_pools();
    assert_eq!(resolve(&mut carried, &mut pools, 1, 1_000), Err(Errors::InvalidAdd));

    let mut fits = context(ResolutionType::Admin);
    fits.config.remaining_total_position = u64::MAX - 10;
    let mut pools = three_pools();
    assert_eq!(resolve(&mut fits, &mut pools, 1, 1_000), Ok(ResolveStep::Resolved));
    assert_eq!(fits.epoch_result.total_position_amount, u64::MAX);
    assert_eq!(fits.config.remaining_total_position, 0);
}

#[test]
fn last_epoch_number_cannot_be_resolved() {
    let mut ctx = context(ResolutionType::Admin);
    ctx.config.current_epoch = u64::MAX;
    ctx.epoch_result.epoch = u64::MAX;
    let mut pools = three_pools();
    for pool in pools.iter_mut() {
        pool.epoch = u64::MAX;
    }
    let before = ctx;
    assert_eq!(resolve(&mut ctx, &mut pools, 1, 1_000), Err(Errors::InvalidAdd));
    assert_eq!(ctx, before);
}

#[test]
fn winner_beyond_the_snapshot_is_refused() {
    let mut ctx = context(ResolutionType::Admin);
    let mut pools = three_pools();
    let before = ctx;
    assert_eq!(resolve(&mut ctx, &mut pools, 10, 1_000), Err(Errors::WinningPoolNotFound));
    assert_eq!(resolve(&mut ctx, &mut pools, 255, 1_000), Err(Errors::WinningPoolNotFound));
    assert_eq!(ctx, before);
    assert_eq!(pools, three_pools());
}

#[test]
fn winner_without_a_pool_has_no_weight() {
    let mut ctx = context(ResolutionType::Admin);
    let mut pools = three_pools();
    assert_eq!(resolve(&mut ctx, &mut pools, 7, 1_000), Ok(ResolveStep::Resolved));
    assert_eq!(ctx.epoch_result.winning_pool_id, 7);
    assert_eq!(ctx.epoch_result.weight, 0);
    assert_eq!(ctx.config.remaining_total_position, 10);
}

#[test]
fn resolution_without_pools_carries_the_carry_over_on() {
    let mut ctx = context(ResolutionType::Admin);
    ctx.config.remaining_total_position = 6;
    let mut pools: Vec<Pool> = Vec::new();
    assert_eq!(resolve(&mut ctx, &mut pools, 0, 1_000), Ok(ResolveStep::Resolved));
    assert_eq!(ctx.epoch_result.pool_count, 0);
    assert_eq!(ctx.epoch_result.total_position_amount, 6);
    assert_eq!(ctx.config.remaining_total_position, 6);
    assert_eq!(ctx.config.current_epoch, 5);
}

#[test]
fn later_pool_with_the_same_index_overwrites_the_earlier() {
    let mut ctx = context(ResolutionType::Admin);
    let mut pools = vec![
        Pool { total_positions: 1, total_weight: 5, id: 0, epoch: 4 },
        Pool { total_positions: 2, total_weight: 7, id: 0, epoch: 4 },
    ];
    assert_eq!(resolve(&mut ctx, &mut pools, 0, 1_000), Ok(ResolveStep::Resolved));
    assert_eq!(ctx.epoch_result.pool_count, 2);
    assert_eq!(ctx.epoch_result.pool_weights[0], 7);
    assert_eq!(ctx.epoch_result.pool_weights[1], 0);
    assert_eq!(ctx.epoch_result.total_position_amount, 3);
}

#[test]
fn epoch_number_grows_by_one_with_each_resolution() {
    let mut current = config(ResolutionType::Admin);
    current.current_epoch = 1;
    for epoch in 1..6u64 {
        let mut ctx = ResolveContext {
            signer: resolver(),
            config: current,
            epoch_result: EpochResult { epoch, ..active_epoch(1) },
            oracle_queue: address(5),
        };
        let mut pools = vec![Pool { total_positions: 1, total_weight: 10_000, id: 0, epoch }];
        assert_eq!(resolve(&mut ctx, &mut pools, 0, 1_000), Ok(ResolveStep::Resolved));
        assert_eq!(ctx.epoch_result.epoch, epoch);
        assert_eq!(ctx.config.current_epoch, epoch + 1);
        current = ctx.config;
    }
    assert_eq!(current.current_epoch, 6);
}

#[test]
fn oracle_resolution_records_the_weights_and_returns_the_request() {
    let mut ctx = context(ResolutionType::Oracle);
    let mut pools = three_pools();
    let step = resolve(&mut ctx, &mut pools, 42, 1_000);
    assert_eq!(
        step,
        Ok(ResolveStep::AwaitRandomness(RandomnessRequest {
            payer: resolver(),
            oracle_queue: address(5),
            caller_seed: [42; 32],
        }))
    );
    assert_eq!(pools, three_pools());
    assert_eq!(
        ctx.epoch_result,
        EpochResult { pool_weights: [0, 200, 300, 0, 0, 0, 0, 0, 0, 0], ..active_epoch(3) }
    );
    assert_eq!(ctx.config, config(ResolutionType::Oracle));
}

#[test]
fn oracle_resolution_runs_in_two_phases() {
    let mut ctx = context(ResolutionType::Oracle);
    ctx.config.remaining_total_position = 5;
    let mut pools = three_pools();
    assert!(matches!(
        resolve(&mut ctx, &mut pools, 1, 1_000),
        Ok(ResolveStep::AwaitRandomness(_))
    ));
    assert_eq!(ctx.config.current_epoch, 4);
    assert_eq!(ctx.config.remaining_total_position, 5);

    assert_eq!(confirm_randomness_request(&mut ctx, &mut pools, 1_001), Ok(()));
    assert!(pools.is_empty());
    assert_eq!(ctx.config.current_epoch, 5);
    assert_eq!(ctx.config.remaining_total_position, 0);
    assert_eq!(
        ctx.epoch_result,
        EpochResult {
            epoch: 4,
            weight: 0,
            total_position_amount: 15,
            end_at: 1_000,
            winning_pool_id: 0,
            epoch_result_state: EpochResultState::Pending,
            pool_count: 3,
            pool_weights: [0, 200, 300, 0, 0, 0, 0, 0, 0, 0],
        }
    );

    let mut answer = CallbackResolve {
        vrf_program_identity: oracle(),
        epoch_result: ctx.epoch_result,
        config: ctx.config,
    };
    assert_eq!(callback_resolve(&mut answer, &oracle(), [7; 32]), Ok(()));
    assert_eq!(answer.epoch_result.epoch_result_state, EpochResultState::Resolved);
    assert_eq!(answer.epoch_result.winning_pool_id, 1);
    assert_eq!(answer.epoch_result.weight, 200);
    assert_eq!(answer.epoch_result.epoch, 4);
    assert_eq!(answer.config.current_epoch, 5);
    assert_eq!(answer.config.remaining_total_position, 0);
}

#[test]
fn oracle_resolution_checks_the_pools_before_the_request() {
    let mut ctx = context(ResolutionType::Oracle);
    let mut pools = three_pools();
    pools[0].epoch = 9;
    let before = ctx;
    assert_eq!(resolve(&mut ctx, &mut pools, 1, 1_000), Err(Errors::EpochMismatch));
    assert_eq!(ctx, before);
    assert_eq!(
        confirm_randomness_request(&mut ctx, &mut pools, 1_000),
        Err(Errors::EpochMismatch)
    );
    assert_eq!(ctx, before);
    assert_eq!(pools.len(), 3);
}

#[test]
fn oracle_resolution_ignores_a_seed_beyond_the_snapshot() {
    let mut ctx = context(ResolutionType::Oracle);
    let mut pools = three_pools();
    assert!(matches!(
        resolve(&mut ctx, &mut pools, 200, 1_000),
        Ok(ResolveStep::AwaitRandomness(RandomnessRequest { caller_seed: [200, ..], .. }))
    ));
}

#[test]
fn confirmation_needs_oracle_resolution() {
    let mut ctx = context(ResolutionType::Admin);
    let mut pools = three_pools();
    let before = ctx;
    assert_eq!(
        confirm_randomness_request(&mut ctx, &mut pools, 1_000),
        Err(Errors::UnsupportedResolution)
    );
    assert_eq!(ctx, before);
    assert_eq!(pools, three_pools());
}

#[test]
fn answer_selects_the_index_the_random_bytes_give() {
    let weights = [10, 20, 30, 40, 50, 60, 70, 80, 90, 100];

    let mut five = pending(5, weights);
    assert_eq!(callback_resolve(&mut five, &oracle(), [7; 32]), Ok(()));
    assert_eq!(five.epoch_result.winning_pool_id, 2);
    assert_eq!(five.epoch_result.weight, 30);

    let mut skipping = pending(3, weights);
    let mut bytes = [0u8; 32];
    bytes[31] = 255;
    bytes[30] = 10;
    assert_eq!(callback_resolve(&mut skipping, &oracle(), bytes), Ok(()));
    assert_eq!(skipping.epoch_result.winning_pool_id, 1);
    assert_eq!(skipping.epoch_result.weight, 20);

    let mut ten = pending(10, weights);
    let mut bytes = [251u8; 32];
    bytes[0] = 249;
    assert_eq!(callback_resolve(&mut ten, &oracle(), bytes), Ok(()));
    assert_eq!(ten.epoch_result.winning_pool_id, 9);
    assert_eq!(ten.epoch_result.weight, 100);

    let mut exhausted = pending(3, weights);
    assert_eq!(callback_resolve(&mut exhausted, &oracle(), [255; 32]), Ok(()));
    assert_eq!(exhausted.epoch_result.winning_pool_id, 0);

    let mut single = pending(1, weights);
    assert_eq!(callback_resolve(&mut single, &oracle(), [99; 32]), Ok(()));
    assert_eq!(single.epoch_result.winning_pool_id, 0);
    assert_eq!(single.epoch_result.weight, 10);
}

#[test]
fn answer_always_selects_one_of_the_declared_pools() {
    for pool_count in 1..=10u8 {
        for byte in 0..=255u8 {
            let mut ctx = pending(pool_count, [1; 10]);
            let mut bytes = [byte; 32];
            bytes[31] = byte.wrapping_mul(31).wrapping_add(pool_count);
            assert_eq!(callback_resolve(&mut ctx, &oracle(), bytes), Ok(()));
            assert!(ctx.epoch_result.winning_pool_id < pool_count);
            assert_eq!(ctx.epoch_result.epoch_result_state, EpochResultState::Resolved);
        }
    }
}

#[test]
fn answer_for_an_empty_winner_carries_the_positions_over() {
    let mut ctx = pending(2, [0, 0, 0, 0, 0, 0, 0, 0, 0, 0]);
    let before = ctx;
    assert_eq!(callback_resolve(&mut ctx, &oracle(), [1; 32]), Ok(()));
    assert_eq!(ctx.epoch_result.winning_pool_id, 1);
    assert_eq!(ctx.epoch_result.weight, 0);
    assert_eq!(ctx.config.remaining_total_position, 10);
    assert_eq!(ctx.config.current_epoch, before.config.current_epoch);
    assert_eq!(ctx.epoch_result.total_position_amount, 10);
}

#[test]
fn answer_from_someone_else_is_refused() {
    let mut ctx = pending(3, [5; 10]);
    ctx.vrf_program_identity = resolver();
    let before = ctx;
    assert_eq!(callback_resolve(&mut ctx, &oracle(), [7; 32]), Err(Errors::Unauthorized));
    assert_eq!(callback_resolve_with_index(&mut ctx, &oracle(), 1), Err(Errors::Unauthorized));
    assert_eq!(ctx, before);
}

#[test]
fn answer_is_taken_by_a_pending_epoch_only() {
    for state in [EpochResultState::Active, EpochResultState::Resolved] {
        let mut ctx = pending(3, [5; 10]);
        ctx.epoch_result.epoch_result_state = state;
        ctx.epoch_result.winning_pool_id = 2;
        ctx.epoch_result.weight = 5;
        let before = ctx;
        assert_eq!(callback_resolve(&mut ctx, &oracle(), [7; 32]), Err(Errors::InvalidEpochState));
        assert_eq!(
            callback_resolve_with_index(&mut ctx, &oracle(), 1),
            Err(Errors::InvalidEpochState)
        );
        assert_eq!(ctx, before);
    }
}

#[test]
fn answer_for_an_epoch_without_pools_is_refused() {
    let mut ctx = pending(0, [5; 10]);
    let before = ctx;
    assert_eq!(callback_resolve(&mut ctx, &oracle(), [7; 32]), Err(Errors::NoPoolsProvided));
    assert_eq!(callback_resolve_with_index(&mut ctx, &oracle(), 0), Err(Errors::NoPoolsProvided));
    assert_eq!(ctx, before);
}

#[test]
fn answer_for_an_epoch_with_too_many_pools_is_refused() {
    let mut ctx = pending(11, [5; 10]);
    let before = ctx;
    assert_eq!(callback_resolve(&mut ctx, &oracle(), [7; 32]), Err(Errors::TooManyPools));
    assert_eq!(ctx, before);
}

#[test]
fn drawn_index_has_to_be_a_declared_pool() {
    let mut ctx = pending(3, [5, 6, 7, 8, 0, 0, 0, 0, 0, 0]);
    let before = ctx;
    assert_eq!(
        callback_resolve_with_index(&mut ctx, &oracle(), 3),
        Err(Errors::WinningPoolNotFound)
    );
    assert_eq!(ctx, before);
    assert_eq!(callback_resolve_with_index(&mut ctx, &oracle(), 2), Ok(()));
    assert_eq!(ctx.epoch_result.winning_pool_id, 2);
    assert_eq!(ctx.epoch_result.weight, 7);
    assert_eq!(ctx.epoch_result.epoch_result_state, EpochResultState::Resolved);
    assert_eq!(ctx.config, before.config);
}

#[test]
fn resolved_epoch_cannot_be_resolved_again() {
    let mut ctx = pending(3, [5, 6, 7, 0, 0, 0, 0, 0, 0, 0]);
    assert_eq!(callback_resolve_with_index(&mut ctx, &oracle(), 1), Ok(()));
    let resolved = ctx;
    assert_eq!(
        callback_resolve_with_index(&mut ctx, &oracle(), 2),
        Err(Errors::InvalidEpochState)
    );
    assert_eq!(callback_resolve(&mut ctx, &oracle(), [0; 32]), Err(Errors::InvalidEpochState));
    assert_eq!(ctx, resolved);
}
