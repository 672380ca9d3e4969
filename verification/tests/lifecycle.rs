use epoch_lottery::address::Address;
use epoch_lottery::errors::Errors;
use epoch_lottery::instructions::{
    callback_resolve, claim, commit, confirm_randomness_request, initialize, initialize_pool,
    mint_position, resolve, update_resolution_type, CallbackResolve, ClaimContext, Commit,
    Initialize, MintPosition, ResolveContext, ResolveStep, StartContext, UpdateConfig,
};
use epoch_lottery::state::{
    Commitment, Config, EpochResult, EpochResultState, Pool, PositionAccount, ResolutionType,
    UserState, WeightModel,
};

fn address(tag: u8) -> Address {
    Address::new([tag; 32])
}

fn blank_pool() -> Pool {
    Pool { total_positions: 0, total_weight: 0, id: 0, epoch: 0 }
}

fn blank_commitment() -> Commitment {
    Commitment { user_pk: address(0), position_amount: 0, weight: 0, pool_id: 0, epoch: 0 }
}

fn set_up(resolution_type: ResolutionType) -> Config {
    let mut ctx =
        Initialize { signer: address(1), mint: address(3), treasury_ata: address(4), config: None };
    initialize(&mut ctx, WeightModel::TimeBased, resolution_type, address(2), 600, 10, 300)
        .unwrap();
    ctx.config.unwrap()
}

fn mint(config: &mut Config, user: Address, state: &mut UserState, now: i64) -> PositionAccount {
    let mut ctx = MintPosition {
        signer: user,
        user_ata: user,
        mint: address(3),
        user_state: *state,
        position: None,
        config: *config,
    };
    let payment = mint_position(&mut ctx, now).unwrap();
    assert_eq!(payment.amount, config.position_price);
    *config = ctx.config;
    *state = ctx.user_state;
    ctx.position.unwrap()
}

fn open(config: &Config, num_pools: u8, now: i64) -> (EpochResult, Vec<Pool>) {
    let mut ctx = StartContext { signer: address(2), config: *config, epoch_result: None };
    let mut slots = vec![blank_pool(); num_pools as usize];
    initialize_pool(&mut ctx, &mut slots, num_pools, now).unwrap();
    (ctx.epoch_result.unwrap(), slots)
}

fn put(
    config: &Config,
    epoch: &EpochResult,
    pool: &mut Pool,
    commitment: &mut Commitment,
    position: PositionAccount,
    now: i64,
) -> Result<(), Errors> {
    let mut ctx = Commit {
        signer: position.owner,
        config: *config,
        epoch_result: *epoch,
        position: Some(position),
        pool: *pool,
        commitment: *commitment,
    };
    commit(&mut ctx, position.user_index, pool.id, now)?;
    assert_eq!(ctx.position, None);
    *pool = ctx.pool;
    *commitment = ctx.commitment;
    Ok(())
}

fn collect(
    config: &Config,
    epoch: &EpochResult,
    commitment: &mut Option<Commitment>,
    user: Address,
    pool_id: u8,
) -> Result<u64, Errors> {
    let mut ctx = ClaimContext {
        signer: user,
        config: *config,
        epoch_result: *epoch,
        commitment: *commitment,
        user_ata: user,
        token_mint: address(3),
    };
    let payment = claim(&mut ctx, pool_id, epoch.epoch)?;
    *commitment = ctx.commitment;
    assert_eq!(payment.to, user);
    assert_eq!(payment.from, config.treasury_ata);
    Ok(payment.amount)
}

#[test]
fn an_epoch_runs_from_minting_to_the_last_claim() {
    let alice = address(7);
    let bob = address(8);
    let mut config = set_up(ResolutionType::Admin);
    let mut alice_state = UserState { position_count: 0 };
    let mut bob_state = UserState { position_count: 0 };
    let first = mint(&mut config, alice, &mut alice_state, 0);
    let second = mint(&mut config, bob, &mut bob_state, 100);
    let third = mint(&mut config, alice, &mut alice_state, 200);
    assert_eq!(config.total_positions_minted, 3);

    let (mut epoch, mut pools) = open(&config, 2, 300);
    assert_eq!(epoch.end_at, 900);

    let mut alice_in_0 = blank_commitment();
    let mut bob_in_0 = blank_commitment();
    let mut alice_in_1 = blank_commitment();
    put(&config, &epoch, &mut pools[0], &mut alice_in_0, first, 600).unwrap();
    put(&config, &epoch, &mut pools[0], &mut bob_in_0, second, 700).unwrap();
    put(&config, &epoch, &mut pools[1], &mut alice_in_1, third, 800).unwrap();
    assert_eq!(alice_in_0.weight, 200_000);
    assert_eq!(bob_in_0.weight, 200_000);
    assert_eq!(alice_in_1.weight, 200_000);
    assert_eq!(pools[0].total_weight, alice_in_0.weight + bob_in_0.weight);
    assert_eq!(pools[1].total_weight, alice_in_1.weight);

    let late = mint(&mut config, bob, &mut bob_state, 850);
    assert_eq!(
        put(&config, &epoch, &mut pools[1], &mut blank_commitment(), late, 900),
        Err(Errors::EpochEnded)
    );

    let mut ctx =
        ResolveContext { signer: address(2), config, epoch_result: epoch, oracle_queue: address(5) };
    assert_eq!(resolve(&mut ctx, &mut pools, 0, 900), Ok(ResolveStep::Resolved));
    config = ctx.config;
    epoch = ctx.epoch_result;
    assert_eq!(config.current_epoch, 2);
    assert_eq!(epoch.total_position_amount, 3);
    assert_eq!(epoch.weight, 400_000);
    assert!(pools.is_empty());

    let pot = 3 * config.position_price;
    let mut of_alice = Some(alice_in_0);
    let mut of_bob = Some(bob_in_0);
    let mut losing = Some(alice_in_1);
    let to_alice = collect(&config, &epoch, &mut of_alice, alice, 0).unwrap();
    let to_bob = collect(&config, &epoch, &mut of_bob, bob, 0).unwrap();
    assert_eq!(to_alice, pot / 2);
    assert_eq!(to_bob, pot / 2);
    assert_eq!(to_alice + to_bob, pot);
    assert_eq!(collect(&config, &epoch, &mut losing, alice, 1), Err(Errors::LosingPool));
    assert_eq!(collect(&config, &epoch, &mut of_alice, alice, 0), Err(Errors::AlreadyClaimed));
    assert_eq!(of_alice, None);
    assert!(losing.is_some());
}

#[test]
fn an_oracle_epoch_runs_from_the_request_to_the_claim() {
    let alice = address(7);
    let mut config = set_up(ResolutionType::Admin);
    let mut switch = UpdateConfig { signer: address(1), config };
    update_resolution_type(&mut switch, ResolutionType::Oracle).unwrap();
    config = switch.config;

    let mut alice_state = UserState { position_count: 0 };
    let position = mint(&mut config, alice, &mut alice_state, 0);
    let (mut epoch, mut pools) = open(&config, 1, 0);
    let mut of_alice = blank_commitment();
    put(&config, &epoch, &mut pools[0], &mut of_alice, position, 30).unwrap();
    assert_eq!(of_alice.weight, 10_000);

    let mut ctx =
        ResolveContext { signer: address(2), config, epoch_result: epoch, oracle_queue: address(5) };
    let step = resolve(&mut ctx, &mut pools, 3, 600).unwrap();
    assert!(matches!(step, ResolveStep::AwaitRandomness(_)));
    assert_eq!(pools.len(), 1);
    confirm_randomness_request(&mut ctx, &mut pools, 600).unwrap();
    config = ctx.config;
    epoch = ctx.epoch_result;
    assert_eq!(epoch.epoch_result_state, EpochResultState::Pending);
    assert_eq!(config.current_epoch, 2);

    let mut claimable = Some(of_alice);
    assert_eq!(
        collect(&config, &epoch, &mut claimable, alice, 0),
        Err(Errors::InvalidEpochState)
    );

    let mut answer =
        CallbackResolve { vrf_program_identity: address(9), epoch_result: epoch, config };
    callback_resolve(&mut answer, &address(9), [200; 32]).unwrap();
    config = answer.config;
    epoch = answer.epoch_result;
    assert_eq!(epoch.epoch_result_state, EpochResultState::Resolved);
    assert_eq!(epoch.winning_pool_id, 0);
    assert_eq!(config.current_epoch, 2);

    assert_eq!(collect(&config, &epoch, &mut claimable, alice, 0), Ok(config.position_price));
    assert_eq!(claimable, None);
}
