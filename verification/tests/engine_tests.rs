use terminal_staking::attributes::Attribute;
use terminal_staking::engine::claim_rewards;
use terminal_staking::engine::get_pending_rewards;
use terminal_staking::engine::initialize_pool;
use terminal_staking::engine::stake_terminal;
use terminal_staking::engine::unstake_terminal;
use terminal_staking::engine::ClaimRewards;
use terminal_staking::engine::GetPendingRewards;
use terminal_staking::engine::InitializePool;
use terminal_staking::engine::StakeTerminal;
use terminal_staking::engine::UnstakeTerminal;
use terminal_staking::engine::UpdateAuthority;
use terminal_staking::errors::StakingError;
use terminal_staking::state::StakeAccount;
use terminal_staking::state::StakingPool;

const AUTHORITY: u64 = 1;
const COLLECTION: u64 = 2;
const REWARD_MINT: u64 = 3;
const OWNER: u64 = 10;
const ASSET: u64 = 20;
const TOKEN_ACCOUNT: u64 = 30;

fn pool(max_terminals: u32) -> StakingPool {
    initialize_pool(
        &InitializePool { authority: AUTHORITY, collection: COLLECTION, reward_mint: REWARD_MINT },
        500_000,
        max_terminals,
    )
}

fn attr(key: &str, value: &str) -> Attribute {
    Attribute { key: key.to_string(), value: value.to_string() }
}

fn stake_ctx(
    pool: StakingPool,
    record: StakeAccount,
    attrs: Option<Vec<Attribute>>,
) -> StakeTerminal {
    StakeTerminal {
        owner: OWNER,
        collection_authority: AUTHORITY,
        payer: OWNER,
        staking_pool: pool,
        stake_account: record,
        terminal_asset: ASSET,
        collection: COLLECTION,
        asset_update_authority: UpdateAuthority::Collection(COLLECTION),
        asset_attributes: attrs,
    }
}

fn unstake_ctx(
    pool: StakingPool,
    record: StakeAccount,
    attrs: Option<Vec<Attribute>>,
) -> UnstakeTerminal {
    UnstakeTerminal {
        owner: OWNER,
        collection_authority: AUTHORITY,
        payer: OWNER,
        staking_pool: pool,
        stake_account: record,
        terminal_asset: ASSET,
        collection: COLLECTION,
        reward_mint: REWARD_MINT,
        user_reward_account: TOKEN_ACCOUNT,
        asset_attributes: attrs,
    }
}

fn kv(list: &[Attribute]) -> Vec<(String, String)> {
    list.iter().map(|a| (a.key.clone(), a.value.clone())).collect()
}

#[test]
fn initialize_pool_starts_empty() {
    let p = pool(50);
    assert_eq!(p.authority, AUTHORITY);
    assert_eq!(p.collection, COLLECTION);
    assert_eq!(p.reward_mint, REWARD_MINT);
    assert_eq!(p.reward_rate, 500_000);
    assert_eq!(p.total_staked, 0);
    assert_eq!(p.total_rewards_distributed, 0);
    assert_eq!(p.max_terminals, 50);
}

#[test]
fn stake_fresh_asset_creates_attributes() {
    let mut ctx = stake_ctx(pool(10), StakeAccount::default(), None);
    let eff = stake_terminal(&mut ctx, 1000).expect("stake should succeed");
    assert!(eff.create_attributes);
    assert_eq!(
        kv(&eff.attribute_list),
        vec![
            ("staked".to_string(), "1000".to_string()),
            ("staked_time".to_string(), "0".to_string()),
        ]
    );
    assert!(eff.frozen);
    assert_eq!(eff.freeze_authority, OWNER);
    assert_eq!(eff.event.owner, OWNER);
    assert_eq!(eff.event.terminal, ASSET);
    assert_eq!(eff.event.timestamp, 1000);
    assert!(ctx.stake_account.is_staked);
    assert_eq!(ctx.stake_account.owner, OWNER);
    assert_eq!(ctx.stake_account.terminal_mint, ASSET);
    assert_eq!(ctx.stake_account.pool, COLLECTION);
    assert_eq!(ctx.stake_account.stake_timestamp, 1000);
    assert_eq!(ctx.stake_account.last_claim_timestamp, 1000);
    assert_eq!(ctx.stake_account.rarity_multiplier, 150);
    assert_eq!(ctx.staking_pool.total_staked, 1);
}

#[test]
fn stake_preserves_foreign_attributes() {
    let attrs = vec![attr("color", "red"), attr("staked", "0"), attr("staked_time", "77")];
    let mut ctx = stake_ctx(pool(10), StakeAccount::default(), Some(attrs));
    let eff = stake_terminal(&mut ctx, 42).expect("stake should succeed");
    assert!(!eff.create_attributes);
    assert_eq!(
        kv(&eff.attribute_list),
        vec![
            ("color".to_string(), "red".to_string()),
            ("staked".to_string(), "42".to_string()),
            ("staked_time".to_string(), "77".to_string()),
        ]
    );
}

#[test]
fn stake_appends_missing_time_entry() {
    let attrs = vec![attr("staked", "0")];
    let mut ctx = stake_ctx(pool(10), StakeAccount::default(), Some(attrs));
    let eff = stake_terminal(&mut ctx, 42).expect("stake should succeed");
    assert_eq!(
        kv(&eff.attribute_list),
        vec![
            ("staked".to_string(), "42".to_string()),
            ("staked_time".to_string(), "0".to_string()),
        ]
    );
}

#[test]
fn stake_wrong_collection_rejected() {
    let mut ctx = stake_ctx(pool(10), StakeAccount::default(), None);
    ctx.asset_update_authority = UpdateAuthority::Collection(COLLECTION + 1);
    assert!(matches!(stake_terminal(&mut ctx, 5), Err(StakingError::InvalidCollection)));
    assert_eq!(ctx.staking_pool.total_staked, 0);
    assert!(!ctx.stake_account.is_staked);

    let mut ctx = stake_ctx(pool(10), StakeAccount::default(), None);
    ctx.asset_update_authority = UpdateAuthority::Address(COLLECTION);
    assert!(matches!(stake_terminal(&mut ctx, 5), Err(StakingError::InvalidCollection)));
}

#[test]
fn stake_at_capacity_rejected() {
    // Capacity one: the first stake fills the pool, the next attempt fails
    // and the counter is unchanged.
    let mut ctx = stake_ctx(pool(1), StakeAccount::default(), None);
    stake_terminal(&mut ctx, 5).expect("first stake should succeed");
    assert_eq!(ctx.staking_pool.total_staked, 1);

    let mut second = stake_ctx(ctx.staking_pool, StakeAccount::default(), None);
    second.terminal_asset = ASSET + 1;
    assert!(matches!(stake_terminal(&mut second, 6), Err(StakingError::PoolAtCapacity)));
    assert_eq!(second.staking_pool.total_staked, 1);
    assert!(!second.stake_account.is_staked);
}

#[test]
fn double_stake_rejected_at_record_level() {
    let mut ctx = stake_ctx(pool(10), StakeAccount::default(), None);
    let eff = stake_terminal(&mut ctx, 5).expect("first stake should succeed");
    let pool_after = ctx.staking_pool;
    let record_after = ctx.stake_account;
    let mut again = stake_ctx(pool_after, record_after, Some(eff.attribute_list));
    assert!(matches!(stake_terminal(&mut again, 6), Err(StakingError::AlreadyStaked)));
    assert_eq!(again.staking_pool.total_staked, 1);
}

#[test]
fn double_stake_rejected_at_attribute_level() {
    // Even with a fresh record, attributes showing a nonzero staked value
    // reject the stake.
    let attrs = vec![attr("staked", "5"), attr("staked_time", "0")];
    let mut ctx = stake_ctx(pool(10), StakeAccount::default(), Some(attrs));
    assert!(matches!(stake_terminal(&mut ctx, 6), Err(StakingError::AlreadyStaked)));
    assert_eq!(ctx.staking_pool.total_staked, 0);
    assert!(!ctx.stake_account.is_staked);
}

#[test]
fn stake_unstake_round_trip_pays_nothing() {
    let mut record = StakeAccount::default();
    record.total_staked_time = 360;
    let mut ctx = stake_ctx(pool(10), record, None);
    let eff = stake_terminal(&mut ctx, 50).expect("stake should succeed");
    assert_eq!(ctx.stake_account.total_staked_time, 360);

    let mut back = unstake_ctx(ctx.staking_pool, ctx.stake_account, Some(eff.attribute_list));
    let out = unstake_terminal(&mut back, 50).expect("unstake should succeed");
    assert_eq!(out.minted, 0);
    assert_eq!(out.event.rewards_claimed, 0);
    assert_eq!(back.stake_account.total_staked_time, 360);
    assert!(!back.stake_account.is_staked);
    assert_eq!(back.stake_account.stake_timestamp, 0);
    assert_eq!(back.staking_pool.total_staked, 0);
    assert_eq!(back.staking_pool.total_rewards_distributed, 0);
    assert_eq!(
        kv(&out.attribute_list),
        vec![
            ("staked".to_string(), "0".to_string()),
            ("staked_time".to_string(), "0".to_string()),
        ]
    );
}

#[test]
fn unstake_requires_custody() {
    let mut ctx = unstake_ctx(pool(10), StakeAccount::default(), None);
    assert!(matches!(unstake_terminal(&mut ctx, 5), Err(StakingError::NotStaked)));
}

#[test]
fn unstake_requires_owner() {
    let mut ctx = stake_ctx(pool(10), StakeAccount::default(), None);
    let eff = stake_terminal(&mut ctx, 5).expect("stake should succeed");
    let mut back = unstake_ctx(ctx.staking_pool, ctx.stake_account, Some(eff.attribute_list));
    back.owner = OWNER + 1;
    assert!(matches!(unstake_terminal(&mut back, 9), Err(StakingError::Unauthorized)));
    assert!(back.stake_account.is_staked);
    assert_eq!(back.staking_pool.total_staked, 1);
}

#[test]
fn unstake_requires_attributes() {
    let mut ctx = stake_ctx(pool(10), StakeAccount::default(), None);
    stake_terminal(&mut ctx, 5).expect("stake should succeed");
    let mut back = unstake_ctx(ctx.staking_pool, ctx.stake_account, None);
    assert!(matches!(unstake_terminal(&mut back, 9), Err(StakingError::AttributesNotInitialized)));
    assert!(back.stake_account.is_staked);
}

#[test]
fn unstake_rejects_unreadable_time() {
    let mut ctx = stake_ctx(pool(10), StakeAccount::default(), None);
    stake_terminal(&mut ctx, 5).expect("stake should succeed");
    let attrs = vec![attr("staked", "5"), attr("staked_time", "soon")];
    let mut back = unstake_ctx(ctx.staking_pool, ctx.stake_account, Some(attrs));
    assert!(matches!(unstake_terminal(&mut back, 9), Err(StakingError::InvalidTimestamp)));
    assert!(back.stake_account.is_staked);
}

#[test]
fn unstake_settles_whole_session() {
    let mut ctx = stake_ctx(pool(10), StakeAccount::default(), None);
    let eff = stake_terminal(&mut ctx, 0).expect("stake should succeed");
    let mut back = unstake_ctx(ctx.staking_pool, ctx.stake_account, Some(eff.attribute_list));
    let out = unstake_terminal(&mut back, 3600).expect("unstake should succeed");
    assert_eq!(out.minted, 1_500_001_200);
    assert_eq!(out.mint_to, TOKEN_ACCOUNT);
    assert!(!out.frozen);
    assert_eq!(out.event.rewards_claimed, 1_500_001_200);
    assert_eq!(out.event.timestamp, 3600);
    assert_eq!(back.stake_account.total_staked_time, 3600);
    assert_eq!(back.staking_pool.total_rewards_distributed, 1_500_001_200);
    assert_eq!(back.staking_pool.total_staked, 0);
    assert_eq!(
        kv(&out.attribute_list),
        vec![
            ("staked".to_string(), "0".to_string()),
            ("staked_time".to_string(), "3600".to_string()),
        ]
    );
}

#[test]
fn claim_requires_custody() {
    let mut ctx = ClaimRewards {
        owner: OWNER,
        staking_pool: pool(10),
        stake_account: StakeAccount::default(),
        reward_mint: REWARD_MINT,
        user_reward_account: TOKEN_ACCOUNT,
    };
    assert_eq!(claim_rewards(&mut ctx, 5), Err(StakingError::NotStaked));
}

#[test]
fn claim_by_stranger_mints_nothing() {
    let mut ctx = stake_ctx(pool(10), StakeAccount::default(), None);
    stake_terminal(&mut ctx, 0).expect("stake should succeed");
    let mut claim = ClaimRewards {
        owner: OWNER + 1,
        staking_pool: ctx.staking_pool,
        stake_account: ctx.stake_account,
        reward_mint: REWARD_MINT,
        user_reward_account: TOKEN_ACCOUNT,
    };
    let before = claim;
    assert_eq!(claim_rewards(&mut claim, 3600), Err(StakingError::Unauthorized));
    assert_eq!(claim, before);
}

#[test]
fn claim_with_no_accrual_changes_nothing() {
    let mut ctx = stake_ctx(pool(10), StakeAccount::default(), None);
    stake_terminal(&mut ctx, 100).expect("stake should succeed");
    let mut claim = ClaimRewards {
        owner: OWNER,
        staking_pool: ctx.staking_pool,
        stake_account: ctx.stake_account,
        reward_mint: REWARD_MINT,
        user_reward_account: TOKEN_ACCOUNT,
    };
    let before = claim;
    let eff = claim_rewards(&mut claim, 100).expect("claim should succeed");
    assert_eq!(eff.minted, 0);
    assert!(eff.event.is_none());
    assert_eq!(claim, before);
}

#[test]
fn pending_rewards_zero_when_unstaked() {
    let ctx = GetPendingRewards { stake_account: StakeAccount::default() };
    assert_eq!(get_pending_rewards(&ctx, 12345), Ok(0));
}

#[test]
fn session_scenario_claim_then_unstake_double_counts() {
    // Pool of one terminal; stake at t=0, claim at t=3600, unstake at
    // t=7200. The unstake measures from the session start rather than the
    // last claim, so the already-claimed first hour is paid a second time.
    let mut ctx = stake_ctx(pool(1), StakeAccount::default(), None);
    let eff = stake_terminal(&mut ctx, 0).expect("stake should succeed");

    let mut claim = ClaimRewards {
        owner: OWNER,
        staking_pool: ctx.staking_pool,
        stake_account: ctx.stake_account,
        reward_mint: REWARD_MINT,
        user_reward_account: TOKEN_ACCOUNT,
    };
    let claimed = claim_rewards(&mut claim, 3600).expect("claim should succeed");
    assert_eq!(claimed.minted, 1_500_001_200);
    let event = claimed.event.expect("a paying claim emits an event");
    assert_eq!(event.amount, 1_500_001_200);
    assert_eq!(claim.stake_account.last_claim_timestamp, 3600);
    assert_eq!(claim.stake_account.stake_timestamp, 0);
    assert_eq!(claim.staking_pool.total_rewards_distributed, 1_500_001_200);

    let pending = get_pending_rewards(&GetPendingRewards { stake_account: claim.stake_account }, 3600);
    assert_eq!(pending, Ok(0));

    let mut back = unstake_ctx(claim.staking_pool, claim.stake_account, Some(eff.attribute_list));
    let out = unstake_terminal(&mut back, 7200).expect("unstake should succeed");
    assert_eq!(out.minted, 3_000_002_400); // the full 7200 s, not 3600
    assert_eq!(back.staking_pool.total_rewards_distributed, 4_500_003_600);
    assert_eq!(back.stake_account.total_staked_time, 7200);
    assert_eq!(back.staking_pool.total_staked, 0);
}

#[test]
fn stake_restamps_every_staked_entry() {
    // Duplicate reserved keys are all overwritten, none invented.
    let attrs = vec![attr("staked", "0"), attr("staked", "0"), attr("staked_time", "9")];
    let mut ctx = stake_ctx(pool(10), StakeAccount::default(), Some(attrs));
    let eff = stake_terminal(&mut ctx, 8).expect("stake should succeed");
    assert_eq!(
        kv(&eff.attribute_list),
        vec![
            ("staked".to_string(), "8".to_string()),
            ("staked".to_string(), "8".to_string()),
            ("staked_time".to_string(), "9".to_string()),
        ]
    );
}

#[test]
fn unstake_last_time_entry_wins() {
    // With duplicate running totals the last parseable one counts, and the
    // rewritten list carries a single total at the end.
    let mut ctx = stake_ctx(pool(10), StakeAccount::default(), None);
    stake_terminal(&mut ctx, 5).expect("stake should succeed");
    let attrs = vec![attr("staked", "5"), attr("staked_time", "100"), attr("staked_time", "200")];
    let mut back = unstake_ctx(ctx.staking_pool, ctx.stake_account, Some(attrs));
    let out = unstake_terminal(&mut back, 10).expect("unstake should succeed");
    assert_eq!(
        kv(&out.attribute_list),
        vec![
            ("staked".to_string(), "0".to_string()),
            ("staked_time".to_string(), "205".to_string()),
        ]
    );
}

#[test]
fn pending_rewards_tracks_claim_window() {
    let mut ctx = stake_ctx(pool(10), StakeAccount::default(), None);
    stake_terminal(&mut ctx, 0).expect("stake should succeed");
    let q = GetPendingRewards { stake_account: ctx.stake_account };
    assert_eq!(get_pending_rewards(&q, 3600), Ok(1_500_001_200));
    assert_eq!(get_pending_rewards(&q, 0), Ok(0));
}
