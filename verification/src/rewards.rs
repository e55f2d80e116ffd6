//! The reward calculator: maps an elapsed duration and a rarity multiplier
//! to a reward quantity in micro-tokens, with overflow-checked arithmetic.

use vstd::prelude::*;

use crate::errors::StakingError;

verus! {

/// Micro-tokens accrued per staked second: one token with six decimal
/// places per hour.
pub const REWARD_RATE_PER_SECOND: u64 = 277_778;

/// The value a signed duration takes once converted to `u64`; non-negative
/// durations keep their value, negative ones wrap as in two's complement.
pub open spec fn duration_as_u64(d: i64) -> int {
    if d >= 0 {
        d as int
    } else {
        0x1_0000_0000_0000_0000 + d
    }
}

/// Whether the checked reward computation overflows: either the base
/// product or its scaling by the multiplier exceeds `u64`.
pub open spec fn reward_overflows(d: i64, m: u16) -> bool {
    ||| duration_as_u64(d) * (REWARD_RATE_PER_SECOND as int) > u64::MAX as int
    ||| duration_as_u64(d) * (REWARD_RATE_PER_SECOND as int) * (m as int) > u64::MAX as int
}

/// The reward owed for `d` seconds at multiplier `m` (a percentage, so 150
/// means 1.5x): `d * rate * m / 100`, truncating integer division.
pub open spec fn reward_amount(d: i64, m: u16) -> int {
    duration_as_u64(d) * (REWARD_RATE_PER_SECOND as int) * (m as int) / 100
}

/// Computes the reward for a staking duration, failing with
/// `CalculationOverflow` exactly when a checked multiplication overflows.
pub fn calculate_rewards(duration_seconds: i64, rarity_multiplier: u16) -> (r: Result<
    u64,
    StakingError,
>)
    ensures
        reward_overflows(duration_seconds, rarity_multiplier) ==> r == Err::<
            u64,
            StakingError,
        >(StakingError::CalculationOverflow),
        !reward_overflows(duration_seconds, rarity_multiplier) ==> r == Ok::<
            u64,
            StakingError,
        >(reward_amount(duration_seconds, rarity_multiplier) as u64),
{
    let raw: u64 = if duration_seconds >= 0 {
        duration_seconds as u64
    } else if duration_seconds == i64::MIN {
        0x8000_0000_0000_0000u64
    } else {
        (u64::MAX - ((-duration_seconds) as u64)) + 1
    };
    assert(raw as int == duration_as_u64(duration_seconds));
    let base_rewards = match raw.checked_mul(REWARD_RATE_PER_SECOND) {
        Some(b) => b,
        None => {
            return Err(StakingError::CalculationOverflow);
        },
    };
    let scaled = match base_rewards.checked_mul(rarity_multiplier as u64) {
        Some(s) => s,
        None => {
            return Err(StakingError::CalculationOverflow);
        },
    };
    match scaled.checked_div(100) {
        Some(v) => Ok(v),
        None => Err(StakingError::CalculationOverflow),
    }
}

/// The rarity multiplier assigned at stake time. A real deployment would
/// derive it from the asset's metadata; this program fixes it at 150,
/// meaning 1.5x rewards.
pub fn calculate_rarity_multiplier() -> (r: Result<u16, StakingError>)
    ensures
        r == Ok::<u16, StakingError>(150u16),
{
    Ok(150)
}

/// For every non-negative duration `d` and multiplier `m`, the reward is
/// `d * 277778 * m / 100` with truncating integer division.
pub proof fn lemma_reward_formula(d: i64, m: u16)
    requires
        0 <= d,
    ensures
        reward_amount(d, m) == d * 277778 * (m as int) / 100,
{
    assert(duration_as_u64(d) == d);
}

} // verus!
