//! The fixed set of failure kinds that staking operations report.

use vstd::prelude::*;

verus! {

/// Every failure of a staking operation is one of these kinds; none is
/// retried internally and no partial success is ever reported.
#[derive(Clone, Copy, Debug, PartialEq, Eq, Structural)]
pub enum StakingError {
    /// The terminal is already staked.
    AlreadyStaked,
    /// The terminal is not currently staked.
    NotStaked,
    /// The staking pool is at maximum capacity.
    PoolAtCapacity,
    /// The terminal does not belong to the pool's collection.
    InvalidCollection,
    /// The caller is not the staking owner.
    Unauthorized,
    /// A reward computation overflowed.
    CalculationOverflow,
    /// A stored timestamp attribute does not parse as an integer.
    InvalidTimestamp,
    /// The asset's attribute set was never initialized.
    AttributesNotInitialized,
}

impl StakingError {
    /// A human-readable description of the failure.
    pub fn message(&self) -> &'static str {
        match self {
            StakingError::AlreadyStaked => "Terminal is already staked",
            StakingError::NotStaked => "Terminal is not currently staked",
            StakingError::PoolAtCapacity => "Staking pool is at maximum capacity",
            StakingError::InvalidCollection => "Invalid collection for this terminal",
            StakingError::Unauthorized => "Unauthorized access",
            StakingError::CalculationOverflow => "Calculation overflow",
            StakingError::InvalidTimestamp => "Invalid timestamp format",
            StakingError::AttributesNotInitialized => "Attributes plugin not initialized",
        }
    }
}

} // verus!
