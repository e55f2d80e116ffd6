//! Pool and per-asset stake records, their invariants, and the lifecycle
//! events each operation emits.

use vstd::prelude::*;

verus! {

/// Aggregate configuration and counters for one collection's staking
/// program; one record per collection, keyed by the collection identity.
/// Identities (signers, assets, mints, collections) are the abstract
/// numeric account ids the host ledger assigns.
#[derive(Clone, Copy, Debug, PartialEq, Eq, Structural)]
pub struct StakingPool {
    /// Identity permitted to configure the pool.
    pub authority: u64,
    /// Identity of the asset collection this pool governs.
    pub collection: u64,
    /// Identity of the fungible reward token.
    pub reward_mint: u64,
    /// Configured rate, stored but not read by the accrual formula.
    pub reward_rate: u64,
    /// Count of currently staked terminals.
    pub total_staked: u32,
    /// Cumulative rewards minted through this pool; never decreases.
    pub total_rewards_distributed: u64,
    /// Capacity ceiling on simultaneously staked terminals.
    pub max_terminals: u32,
}

impl StakingPool {
    /// Capacity invariant: never more staked terminals than the ceiling.
    pub open spec fn wf(self) -> bool {
        self.total_staked <= self.max_terminals
    }
}

/// Per-asset custody and accrual bookkeeping; created on the first stake of
/// an asset and reused, never deleted, across stake/unstake cycles.
#[derive(Clone, Copy, Debug, PartialEq, Eq, Structural)]
pub struct StakeAccount {
    /// Identity of the staking party; fixed for one staking session.
    pub owner: u64,
    /// Identity of the staked asset.
    pub terminal_mint: u64,
    /// Identity of the owning pool (the collection it is keyed by).
    pub pool: u64,
    /// Start of the current staking session; zero when not staked.
    pub stake_timestamp: i64,
    /// Last time rewards were settled via claim or unstake.
    pub last_claim_timestamp: i64,
    /// Cumulative seconds staked across all sessions.
    pub total_staked_time: i64,
    /// Fixed-point percentage assigned at stake time; 100 means 1.0x.
    pub rarity_multiplier: u16,
    /// Custody flag: whether the asset is currently staked.
    pub is_staked: bool,
}

impl StakeAccount {
    /// Timestamps are clock readings, so non-negative; cumulative time is
    /// never negative; an unstaked record carries no session start.
    pub open spec fn wf(self) -> bool {
        &&& 0 <= self.stake_timestamp
        &&& 0 <= self.last_claim_timestamp
        &&& 0 <= self.total_staked_time
        &&& !self.is_staked ==> self.stake_timestamp == 0
    }
}

impl Default for StakeAccount {
    /// A fresh, never-staked record, zeroed as the ledger creates it.
    fn default() -> (r: Self)
        ensures
            r == (StakeAccount {
                owner: 0,
                terminal_mint: 0,
                pool: 0,
                stake_timestamp: 0,
                last_claim_timestamp: 0,
                total_staked_time: 0,
                rarity_multiplier: 0,
                is_staked: false,
            }),
            r.wf(),
    {
        StakeAccount {
            owner: 0,
            terminal_mint: 0,
            pool: 0,
            stake_timestamp: 0,
            last_claim_timestamp: 0,
            total_staked_time: 0,
            rarity_multiplier: 0,
            is_staked: false,
        }
    }
}

/// Emitted when a terminal enters custody.
#[derive(Clone, Copy, Debug, PartialEq, Eq, Structural)]
pub struct TerminalStaked {
    pub owner: u64,
    pub terminal: u64,
    pub timestamp: i64,
}

/// Emitted when a terminal leaves custody, with the rewards settled on the
/// way out.
#[derive(Clone, Copy, Debug, PartialEq, Eq, Structural)]
pub struct TerminalUnstaked {
    pub owner: u64,
    pub terminal: u64,
    pub rewards_claimed: u64,
    pub timestamp: i64,
}

/// Emitted when rewards are claimed without unstaking.
#[derive(Clone, Copy, Debug, PartialEq, Eq, Structural)]
pub struct RewardsClaimed {
    pub owner: u64,
    pub terminal: u64,
    pub amount: u64,
    pub timestamp: i64,
}

} // verus!
