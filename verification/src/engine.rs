//! The staking engine: the stake/unstake/claim state machine over the pool
//! and per-asset records. Each operation validates its inputs, updates the
//! records in place, and returns the effects the host must perform in the
//! same atomic unit: the attribute list the custody subsystem must store,
//! the custody-flag change, the amount to mint, and the event to emit. A
//! failed operation changes nothing and reports exactly one error kind.

use vstd::prelude::*;

use crate::attributes::Attribute;
use crate::attributes::kv_view;
use crate::attributes::opt_kv_view;
use crate::attributes::shows_staked;
use crate::attributes::staked_attr_list;
use crate::attributes::staked_time_total;
use crate::attributes::unstaked_attr_list;
use crate::attributes::stake_attributes;
use crate::attributes::unstake_attributes;
use crate::errors::StakingError;
use crate::rewards::calculate_rarity_multiplier;
use crate::rewards::calculate_rewards;
use crate::rewards::reward_amount;
use crate::rewards::reward_overflows;
use crate::state::RewardsClaimed;
use crate::state::StakeAccount;
use crate::state::StakingPool;
use crate::state::TerminalStaked;
use crate::state::TerminalUnstaked;

verus! {

/// Who may update an asset's metadata; an asset belongs to a collection
/// exactly when its update authority is that collection.
#[derive(Clone, Copy, Debug, PartialEq, Eq, Structural)]
pub enum UpdateAuthority {
    /// The asset has no update authority.
    NoAuthority,
    /// A single address holds the update authority.
    Address(u64),
    /// The asset is a member of this collection.
    Collection(u64),
}

/// Inputs to pool initialization.
#[derive(Clone, Copy, Debug, PartialEq, Eq, Structural)]
pub struct InitializePool {
    /// Identity permitted to configure the pool.
    pub authority: u64,
    /// Identity of the collection the pool governs.
    pub collection: u64,
    /// Identity of the fungible reward token.
    pub reward_mint: u64,
}

/// Inputs to a stake operation: the signing identities, the records read
/// from the ledger, and what the custody subsystem reports about the asset.
#[derive(Debug)]
pub struct StakeTerminal {
    /// The staking party, a verified signer.
    pub owner: u64,
    /// The collection authority co-signing the attribute update.
    pub collection_authority: u64,
    /// The account funding record creation.
    pub payer: u64,
    /// The pool record, updated in place on success.
    pub staking_pool: StakingPool,
    /// The asset's stake record, updated in place on success.
    pub stake_account: StakeAccount,
    /// Identity of the asset being staked.
    pub terminal_asset: u64,
    /// Identity of the collection account handed in.
    pub collection: u64,
    /// The asset's update authority, read from its metadata.
    pub asset_update_authority: UpdateAuthority,
    /// The asset's attribute set, absent when never initialized.
    pub asset_attributes: Option<Vec<Attribute>>,
}

/// Effects of a successful stake, for the host to perform atomically.
#[derive(Debug)]
pub struct StakeEffects {
    /// Whether the attribute set must be created rather than replaced.
    pub create_attributes: bool,
    /// The attribute list the custody subsystem must now hold.
    pub attribute_list: Vec<Attribute>,
    /// The custody flag to set on the asset: frozen while staked.
    pub frozen: bool,
    /// The identity granted authority over the custody flag.
    pub freeze_authority: u64,
    /// The lifecycle event to emit.
    pub event: TerminalStaked,
}

/// Inputs to an unstake operation.
#[derive(Debug)]
pub struct UnstakeTerminal {
    /// The caller claiming to be the staking owner, a verified signer.
    pub owner: u64,
    /// The collection authority co-signing the attribute update.
    pub collection_authority: u64,
    /// The account funding the updates.
    pub payer: u64,
    /// The pool record, updated in place on success.
    pub staking_pool: StakingPool,
    /// The asset's stake record, updated in place on success.
    pub stake_account: StakeAccount,
    /// Identity of the asset being unstaked.
    pub terminal_asset: u64,
    /// Identity of the collection account handed in.
    pub collection: u64,
    /// Identity of the reward token mint.
    pub reward_mint: u64,
    /// The owner's token account receiving the rewards.
    pub user_reward_account: u64,
    /// The asset's attribute set, absent when never initialized.
    pub asset_attributes: Option<Vec<Attribute>>,
}

/// Effects of a successful unstake.
#[derive(Debug)]
pub struct UnstakeEffects {
    /// Rewards to mint to the owner; zero means no mint call is made.
    pub minted: u64,
    /// The token account the rewards go to.
    pub mint_to: u64,
    /// The attribute list the custody subsystem must now hold.
    pub attribute_list: Vec<Attribute>,
    /// The custody flag state: thawed before the flag is removed.
    pub frozen: bool,
    /// The lifecycle event to emit.
    pub event: TerminalUnstaked,
}

/// Inputs to a claim operation.
#[derive(Clone, Copy, Debug, PartialEq, Eq, Structural)]
pub struct ClaimRewards {
    /// The caller claiming to be the staking owner, a verified signer.
    pub owner: u64,
    /// The pool record, updated in place when rewards are minted.
    pub staking_pool: StakingPool,
    /// The asset's stake record, updated in place when rewards are minted.
    pub stake_account: StakeAccount,
    /// Identity of the reward token mint.
    pub reward_mint: u64,
    /// The owner's token account receiving the rewards.
    pub user_reward_account: u64,
}

/// Effects of a successful claim.
#[derive(Clone, Copy, Debug, PartialEq, Eq, Structural)]
pub struct ClaimEffects {
    /// Rewards to mint to the owner; zero means nothing happened.
    pub minted: u64,
    /// The token account the rewards go to.
    pub mint_to: u64,
    /// The lifecycle event to emit, absent when no rewards accrued.
    pub event: Option<RewardsClaimed>,
}

/// Inputs to the read-only pending-rewards query.
#[derive(Clone, Copy, Debug, PartialEq, Eq, Structural)]
pub struct GetPendingRewards {
    /// The asset's stake record.
    pub stake_account: StakeAccount,
}

/// The error a stake reports, if any: collection membership, then pool
/// capacity, then the record's custody flag, then the external attributes,
/// in the order the engine tests them.
pub open spec fn stake_check(
    pool: StakingPool,
    rec: StakeAccount,
    authority: UpdateAuthority,
    kvs: Seq<(Seq<char>, Seq<char>)>,
) -> Option<StakingError> {
    if authority != UpdateAuthority::Collection(pool.collection) {
        Some(StakingError::InvalidCollection)
    } else if !(pool.total_staked < pool.max_terminals) {
        Some(StakingError::PoolAtCapacity)
    } else if rec.is_staked {
        Some(StakingError::AlreadyStaked)
    } else if shows_staked(kvs) {
        Some(StakingError::AlreadyStaked)
    } else {
        None
    }
}

/// The stake record after a successful stake: a fresh session starting now,
/// with the cumulative staked time carried over.
pub open spec fn stake_record_after(
    rec: StakeAccount,
    owner: u64,
    terminal: u64,
    pool_key: u64,
    now: i64,
) -> StakeAccount {
    StakeAccount {
        owner,
        terminal_mint: terminal,
        pool: pool_key,
        stake_timestamp: now,
        last_claim_timestamp: now,
        total_staked_time: rec.total_staked_time,
        rarity_multiplier: 150u16,
        is_staked: true,
    }
}

/// The pool after a successful stake: one more terminal in custody.
pub open spec fn stake_pool_after(pool: StakingPool) -> StakingPool {
    StakingPool { total_staked: (pool.total_staked + 1) as u32, ..pool }
}

/// Stakes a terminal: validates collection membership, capacity and custody
/// state, marks the record staked from `now`, counts it in the pool, and
/// returns the attribute list and custody flag the host must store.
pub fn stake_terminal(ctx: &mut StakeTerminal, now: i64) -> (r: Result<
    StakeEffects,
    StakingError,
>)
    requires
        old(ctx).staking_pool.wf(),
        old(ctx).stake_account.wf(),
        0 <= now,
        old(ctx).collection == old(ctx).staking_pool.collection,
    ensures
        final(ctx).staking_pool.wf(),
        final(ctx).stake_account.wf(),
        match stake_check(
            old(ctx).staking_pool,
            old(ctx).stake_account,
            old(ctx).asset_update_authority,
            opt_kv_view(old(ctx).asset_attributes),
        ) {
            Some(e) => r == Err::<StakeEffects, StakingError>(e) && *final(ctx) == *old(ctx),
            None => {
                &&& *final(ctx) == (StakeTerminal {
                    staking_pool: stake_pool_after(old(ctx).staking_pool),
                    stake_account: stake_record_after(
                        old(ctx).stake_account,
                        old(ctx).owner,
                        old(ctx).terminal_asset,
                        old(ctx).staking_pool.collection,
                        now,
                    ),
                    ..*old(ctx)
                })
                &&& r matches Ok(eff)
                &&& eff.create_attributes == (old(ctx).asset_attributes is None)
                &&& kv_view(eff.attribute_list@) == staked_attr_list(
                    opt_kv_view(old(ctx).asset_attributes),
                    now,
                )
                &&& eff.frozen == true
                &&& eff.freeze_authority == old(ctx).owner
                &&& eff.event == (TerminalStaked {
                    owner: old(ctx).owner,
                    terminal: old(ctx).terminal_asset,
                    timestamp: now,
                })
            },
        },
{
    if !(matches!(ctx.asset_update_authority, UpdateAuthority::Collection(c) if c == ctx.staking_pool.collection)) {
        return Err(StakingError::InvalidCollection);
    }
    if !(ctx.staking_pool.total_staked < ctx.staking_pool.max_terminals) {
        return Err(StakingError::PoolAtCapacity);
    }
    if ctx.stake_account.is_staked {
        return Err(StakingError::AlreadyStaked);
    }
    let create_attributes = ctx.asset_attributes.is_none();
    let attribute_list = match stake_attributes(&ctx.asset_attributes, now) {
        Ok(list) => list,
        Err(e) => {
            return Err(e);
        },
    };
    let rarity_multiplier = match calculate_rarity_multiplier() {
        Ok(m) => m,
        Err(e) => {
            return Err(e);
        },
    };
    ctx.stake_account = StakeAccount {
        owner: ctx.owner,
        terminal_mint: ctx.terminal_asset,
        pool: ctx.staking_pool.collection,
        stake_timestamp: now,
        last_claim_timestamp: now,
        total_staked_time: ctx.stake_account.total_staked_time,
        rarity_multiplier,
        is_staked: true,
    };
    ctx.staking_pool.total_staked = ctx.staking_pool.total_staked + 1;
    let event = TerminalStaked { owner: ctx.owner, terminal: ctx.terminal_asset, timestamp: now };
    Ok(StakeEffects {
        create_attributes,
        attribute_list,
        frozen: true,
        freeze_authority: ctx.owner,
        event,
    })
}

/// The error an unstake reports, if any, in the order the engine tests
/// them: custody state, ownership, reward arithmetic, then the external
/// attribute set's presence and readability.
pub open spec fn unstake_check(
    rec: StakeAccount,
    caller: u64,
    now: i64,
    attrs_present: bool,
    kvs: Seq<(Seq<char>, Seq<char>)>,
) -> Option<StakingError> {
    if !rec.is_staked {
        Some(StakingError::NotStaked)
    } else if rec.owner != caller {
        Some(StakingError::Unauthorized)
    } else if reward_overflows((now - rec.stake_timestamp) as i64, rec.rarity_multiplier) {
        Some(StakingError::CalculationOverflow)
    } else if !attrs_present {
        Some(StakingError::AttributesNotInitialized)
    } else if staked_time_total(kvs) is None {
        Some(StakingError::InvalidTimestamp)
    } else {
        None
    }
}

/// The stake record after a successful unstake: the session closed, its
/// duration added to the cumulative total.
pub open spec fn unstake_record_after(rec: StakeAccount, duration: int) -> StakeAccount {
    StakeAccount {
        total_staked_time: (rec.total_staked_time + duration) as i64,
        is_staked: false,
        stake_timestamp: 0,
        ..rec
    }
}

/// The pool after a successful unstake: one terminal out of custody, the
/// settled rewards added to the distribution total.
pub open spec fn unstake_pool_after(pool: StakingPool, rewards: int) -> StakingPool {
    StakingPool {
        total_staked: (pool.total_staked - 1) as u32,
        total_rewards_distributed: (pool.total_rewards_distributed + rewards) as u64,
        ..pool
    }
}

/// The machine bounds an unstake needs so that no counter overflows: they
/// concern only calls that would otherwise succeed.
pub open spec fn unstake_fits(ctx: UnstakeTerminal, now: i64) -> bool {
    let kvs = opt_kv_view(ctx.asset_attributes);
    let duration = now - ctx.stake_account.stake_timestamp;
    unstake_check(
        ctx.stake_account,
        ctx.owner,
        now,
        ctx.asset_attributes is Some,
        kvs,
    ) is None ==> {
        &&& staked_time_total(kvs)->0 + duration <= i64::MAX
        &&& ctx.stake_account.total_staked_time + duration <= i64::MAX
        &&& ctx.staking_pool.total_rewards_distributed + reward_amount(
            duration as i64,
            ctx.stake_account.rarity_multiplier,
        ) <= u64::MAX
    }
}

/// Unstakes a terminal: settles rewards for the whole session measured from
/// the session start, resets the record and the external attributes, and
/// frees the custody flag. The asset stays staked if its attribute set is
/// missing or unreadable.
pub fn unstake_terminal(ctx: &mut UnstakeTerminal, now: i64) -> (r: Result<
    UnstakeEffects,
    StakingError,
>)
    requires
        old(ctx).staking_pool.wf(),
        old(ctx).stake_account.wf(),
        0 <= now,
        old(ctx).collection == old(ctx).staking_pool.collection,
        old(ctx).reward_mint == old(ctx).staking_pool.reward_mint,
        old(ctx).stake_account.is_staked ==> old(ctx).stake_account.stake_timestamp <= now,
        old(ctx).stake_account.is_staked ==> old(ctx).staking_pool.total_staked >= 1,
        unstake_fits(*old(ctx), now),
    ensures
        final(ctx).staking_pool.wf(),
        final(ctx).stake_account.wf(),
        final(ctx).staking_pool.total_rewards_distributed >= old(
            ctx,
        ).staking_pool.total_rewards_distributed,
        match unstake_check(
            old(ctx).stake_account,
            old(ctx).owner,
            now,
            old(ctx).asset_attributes is Some,
            opt_kv_view(old(ctx).asset_attributes),
        ) {
            Some(e) => r == Err::<UnstakeEffects, StakingError>(e) && *final(ctx) == *old(ctx),
            None => {
                let duration = now - old(ctx).stake_account.stake_timestamp;
                let rewards = reward_amount(
                    duration as i64,
                    old(ctx).stake_account.rarity_multiplier,
                );
                &&& *final(ctx) == (UnstakeTerminal {
                    staking_pool: unstake_pool_after(old(ctx).staking_pool, rewards),
                    stake_account: unstake_record_after(old(ctx).stake_account, duration),
                    ..*old(ctx)
                })
                &&& r matches Ok(eff)
                &&& eff.minted == rewards
                &&& eff.mint_to == old(ctx).user_reward_account
                &&& kv_view(eff.attribute_list@) == unstaked_attr_list(
                    opt_kv_view(old(ctx).asset_attributes),
                    staked_time_total(opt_kv_view(old(ctx).asset_attributes))->0 + duration,
                )
                &&& eff.frozen == false
                &&& eff.event == (TerminalUnstaked {
                    owner: old(ctx).owner,
                    terminal: old(ctx).terminal_asset,
                    rewards_claimed: rewards as u64,
                    timestamp: now,
                })
            },
        },
{
    if !ctx.stake_account.is_staked {
        return Err(StakingError::NotStaked);
    }
    if ctx.stake_account.owner != ctx.owner {
        return Err(StakingError::Unauthorized);
    }
    let duration = now - ctx.stake_account.stake_timestamp;
    let rewards = match calculate_rewards(duration, ctx.stake_account.rarity_multiplier) {
        Ok(v) => v,
        Err(e) => {
            return Err(e);
        },
    };
    let attribute_list = match &ctx.asset_attributes {
        None => {
            return Err(StakingError::AttributesNotInitialized);
        },
        Some(attrs) => {
            proof {
                crate::attributes::lemma_staked_time_total_in_range(kv_view(attrs@));
            }
            match unstake_attributes(attrs, duration) {
                Ok(list) => list,
                Err(e) => {
                    return Err(e);
                },
            }
        },
    };
    ctx.stake_account = StakeAccount {
        total_staked_time: ctx.stake_account.total_staked_time + duration,
        is_staked: false,
        stake_timestamp: 0,
        ..ctx.stake_account
    };
    ctx.staking_pool.total_staked = ctx.staking_pool.total_staked - 1;
    ctx.staking_pool.total_rewards_distributed = ctx.staking_pool.total_rewards_distributed
        + rewards;
    let event = TerminalUnstaked {
        owner: ctx.owner,
        terminal: ctx.terminal_asset,
        rewards_claimed: rewards,
        timestamp: now,
    };
    Ok(UnstakeEffects {
        minted: rewards,
        mint_to: ctx.user_reward_account,
        attribute_list,
        frozen: false,
        event,
    })
}

/// The error a claim reports, if any: custody state, ownership, then reward
/// arithmetic over the window since the last settlement.
pub open spec fn claim_check(rec: StakeAccount, caller: u64, now: i64) -> Option<StakingError> {
    if !rec.is_staked {
        Some(StakingError::NotStaked)
    } else if rec.owner != caller {
        Some(StakingError::Unauthorized)
    } else if reward_overflows((now - rec.last_claim_timestamp) as i64, rec.rarity_multiplier) {
        Some(StakingError::CalculationOverflow)
    } else {
        None
    }
}

/// The machine bound a claim needs so that the distribution counter does
/// not overflow; it concerns only calls that would otherwise succeed.
pub open spec fn claim_fits(ctx: ClaimRewards, now: i64) -> bool {
    claim_check(ctx.stake_account, ctx.owner, now) is None
        ==> ctx.staking_pool.total_rewards_distributed + reward_amount(
        (now - ctx.stake_account.last_claim_timestamp) as i64,
        ctx.stake_account.rarity_multiplier,
    ) <= u64::MAX
}

/// Claims accrued rewards without unstaking: settles the window since the
/// last claim, advances the claim window, and leaves the session start and
/// cumulative-time accounting untouched. A claim that accrues nothing
/// changes nothing.
pub fn claim_rewards(ctx: &mut ClaimRewards, now: i64) -> (r: Result<ClaimEffects, StakingError>)
    requires
        old(ctx).staking_pool.wf(),
        old(ctx).stake_account.wf(),
        0 <= now,
        old(ctx).reward_mint == old(ctx).staking_pool.reward_mint,
        old(ctx).stake_account.is_staked ==> old(ctx).stake_account.last_claim_timestamp <= now,
        claim_fits(*old(ctx), now),
    ensures
        final(ctx).staking_pool.wf(),
        final(ctx).stake_account.wf(),
        final(ctx).staking_pool.total_rewards_distributed >= old(
            ctx,
        ).staking_pool.total_rewards_distributed,
        match claim_check(old(ctx).stake_account, old(ctx).owner, now) {
            Some(e) => r == Err::<ClaimEffects, StakingError>(e) && *final(ctx) == *old(ctx),
            None => {
                let amount = reward_amount(
                    (now - old(ctx).stake_account.last_claim_timestamp) as i64,
                    old(ctx).stake_account.rarity_multiplier,
                );
                &&& r matches Ok(eff)
                &&& eff.minted == amount
                &&& eff.mint_to == old(ctx).user_reward_account
                &&& (amount > 0 ==> {
                    &&& *final(ctx) == (ClaimRewards {
                        staking_pool: StakingPool {
                            total_rewards_distributed: (old(
                                ctx,
                            ).staking_pool.total_rewards_distributed + amount) as u64,
                            ..old(ctx).staking_pool
                        },
                        stake_account: StakeAccount {
                            last_claim_timestamp: now,
                            ..old(ctx).stake_account
                        },
                        ..*old(ctx)
                    })
                    &&& eff.event == Some(RewardsClaimed {
                        owner: old(ctx).owner,
                        terminal: old(ctx).stake_account.terminal_mint,
                        amount: amount as u64,
                        timestamp: now,
                    })
                })
                &&& (amount == 0 ==> *final(ctx) == *old(ctx) && eff.event is None)
            },
        },
{
    if !ctx.stake_account.is_staked {
        return Err(StakingError::NotStaked);
    }
    if ctx.stake_account.owner != ctx.owner {
        return Err(StakingError::Unauthorized);
    }
    let duration = now - ctx.stake_account.last_claim_timestamp;
    let rewards = match calculate_rewards(duration, ctx.stake_account.rarity_multiplier) {
        Ok(v) => v,
        Err(e) => {
            return Err(e);
        },
    };
    if rewards > 0 {
        ctx.stake_account.last_claim_timestamp = now;
        ctx.staking_pool.total_rewards_distributed = ctx.staking_pool.total_rewards_distributed
            + rewards;
        let event = RewardsClaimed {
            owner: ctx.owner,
            terminal: ctx.stake_account.terminal_mint,
            amount: rewards,
            timestamp: now,
        };
        Ok(ClaimEffects { minted: rewards, mint_to: ctx.user_reward_account, event: Some(event) })
    } else {
        Ok(ClaimEffects { minted: 0, mint_to: ctx.user_reward_account, event: None })
    }
}

/// Creates the pool record for one collection with all counters at zero.
pub fn initialize_pool(ctx: &InitializePool, reward_rate: u64, max_terminals: u32) -> (pool:
    StakingPool)
    ensures
        pool == (StakingPool {
            authority: ctx.authority,
            collection: ctx.collection,
            reward_mint: ctx.reward_mint,
            reward_rate,
            total_staked: 0,
            total_rewards_distributed: 0,
            max_terminals,
        }),
        pool.wf(),
{
    StakingPool {
        authority: ctx.authority,
        collection: ctx.collection,
        reward_mint: ctx.reward_mint,
        reward_rate,
        total_staked: 0,
        total_rewards_distributed: 0,
        max_terminals,
    }
}

/// Read-only projection of the rewards a claim would settle now: zero for
/// an unstaked record, otherwise the reward over the window since the last
/// settlement.
pub fn get_pending_rewards(ctx: &GetPendingRewards, now: i64) -> (r: Result<u64, StakingError>)
    requires
        ctx.stake_account.wf(),
        0 <= now,
        ctx.stake_account.is_staked ==> ctx.stake_account.last_claim_timestamp <= now,
    ensures
        !ctx.stake_account.is_staked ==> r == Ok::<u64, StakingError>(0u64),
        ctx.stake_account.is_staked ==> (if reward_overflows(
            (now - ctx.stake_account.last_claim_timestamp) as i64,
            ctx.stake_account.rarity_multiplier,
        ) {
            r == Err::<u64, StakingError>(StakingError::CalculationOverflow)
        } else {
            r == Ok::<u64, StakingError>(
                reward_amount(
                    (now - ctx.stake_account.last_claim_timestamp) as i64,
                    ctx.stake_account.rarity_multiplier,
                ) as u64,
            )
        }),
{
    if !ctx.stake_account.is_staked {
        return Ok(0);
    }
    let duration = now - ctx.stake_account.last_claim_timestamp;
    calculate_rewards(duration, ctx.stake_account.rarity_multiplier)
}

/// Round trip law: staking and then immediately unstaking succeeds whenever
/// the asset's attribute set was readable, settles no reward, leaves the
/// record's cumulative staked time as it was before the stake, and returns
/// the pool's custody count to its old value.
pub proof fn lemma_stake_unstake_round_trip(
    pool: StakingPool,
    rec: StakeAccount,
    authority: UpdateAuthority,
    kvs: Seq<(Seq<char>, Seq<char>)>,
    owner: u64,
    terminal: u64,
    pool_key: u64,
    now: i64,
)
    requires
        stake_check(pool, rec, authority, kvs) is None,
        staked_time_total(kvs) is Some,
        0 <= now,
    ensures
        ({
            let staked = stake_record_after(rec, owner, terminal, pool_key, now);
            let attrs = staked_attr_list(kvs, now);
            let duration = now - staked.stake_timestamp;
            &&& duration == 0
            &&& unstake_check(staked, owner, now, true, attrs) is None
            &&& reward_amount(duration as i64, staked.rarity_multiplier) == 0
            &&& unstake_record_after(staked, duration).total_staked_time == rec.total_staked_time
            &&& !unstake_record_after(staked, duration).is_staked
            &&& unstake_pool_after(stake_pool_after(pool), 0).total_staked == pool.total_staked
        }),
{
    let staked = stake_record_after(rec, owner, terminal, pool_key, now);
    let attrs = staked_attr_list(kvs, now);
    crate::attributes::lemma_staked_attrs_readable(kvs, now);
    assert(staked_time_total(attrs) is Some);
    assert(reward_amount(0i64, staked.rarity_multiplier) == 0) by {
        assert(crate::rewards::duration_as_u64(0i64) == 0);
    }
    assert(!reward_overflows(0i64, staked.rarity_multiplier)) by {
        assert(crate::rewards::duration_as_u64(0i64) == 0);
    }
}

/// Capacity law: a pool already holding its ceiling rejects every stake of
/// a collection member with `PoolAtCapacity`, whatever the record and
/// attribute state; the operation's contract then leaves every counter
/// unchanged.
pub proof fn lemma_stake_at_capacity(
    pool: StakingPool,
    rec: StakeAccount,
    authority: UpdateAuthority,
    kvs: Seq<(Seq<char>, Seq<char>)>,
)
    requires
        pool.total_staked == pool.max_terminals,
        authority == UpdateAuthority::Collection(pool.collection),
    ensures
        stake_check(pool, rec, authority, kvs) == Some(StakingError::PoolAtCapacity),
{
}

/// Double-stake law: after a successful stake, staking the same asset again
/// without an intervening unstake is rejected with `AlreadyStaked` at the
/// record level while the pool still has room, and — at any nonzero time —
/// the external attributes alone already show the asset staked.
pub proof fn lemma_double_stake_rejected(
    pool: StakingPool,
    rec: StakeAccount,
    authority: UpdateAuthority,
    kvs: Seq<(Seq<char>, Seq<char>)>,
    owner: u64,
    terminal: u64,
    pool_key: u64,
    now: i64,
)
    requires
        stake_check(pool, rec, authority, kvs) is None,
        pool.total_staked + 1 < pool.max_terminals,
    ensures
        stake_check(
            stake_pool_after(pool),
            stake_record_after(rec, owner, terminal, pool_key, now),
            authority,
            staked_attr_list(kvs, now),
        ) == Some(StakingError::AlreadyStaked),
        now != 0 ==> shows_staked(staked_attr_list(kvs, now)),
{
    if now != 0 {
        crate::attributes::lemma_staked_attrs_show_staked(kvs, now);
    }
}

/// Authorization law: a claim by any identity other than the record's owner
/// on a staked asset fails `Unauthorized`; the operation's contract then
/// mints nothing and changes nothing.
pub proof fn lemma_claim_unauthorized(rec: StakeAccount, caller: u64, now: i64)
    requires
        rec.is_staked,
        caller != rec.owner,
    ensures
        claim_check(rec, caller, now) == Some(StakingError::Unauthorized),
{
}

} // verus!
