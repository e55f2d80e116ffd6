use terminal_staking::errors::StakingError;
use terminal_staking::rewards::calculate_rarity_multiplier;
use terminal_staking::rewards::calculate_rewards;

#[test]
fn reward_formula_exact_values() {
    // d * 277778 * m / 100, truncating.
    assert_eq!(calculate_rewards(0, 150), Ok(0));
    assert_eq!(calculate_rewards(1, 100), Ok(277_778));
    assert_eq!(calculate_rewards(1, 150), Ok(416_667)); // 277778 * 150 / 100
    assert_eq!(calculate_rewards(3600, 150), Ok(1_500_001_200));
    assert_eq!(calculate_rewards(7200, 150), Ok(3_000_002_400));
    assert_eq!(calculate_rewards(3, 1), Ok(8_333)); // 833334 / 100 truncates
}

#[test]
fn reward_formula_zero_multiplier() {
    assert_eq!(calculate_rewards(1000, 0), Ok(0));
}

#[test]
fn reward_overflow_large_duration() {
    assert_eq!(
        calculate_rewards(i64::MAX, 65535),
        Err(StakingError::CalculationOverflow)
    );
}

#[test]
fn reward_overflow_second_multiplication() {
    // The base product fits, scaling by the multiplier does not.
    let d: i64 = (u64::MAX / 277_778 / 2) as i64;
    assert_eq!(calculate_rewards(d, 3), Err(StakingError::CalculationOverflow));
    assert!(calculate_rewards(d, 1).is_ok());
}

#[test]
fn reward_negative_duration_wraps_and_overflows() {
    // A negative duration converts to a huge unsigned value, so the
    // checked multiplication fails rather than paying anything out.
    assert_eq!(calculate_rewards(-1, 150), Err(StakingError::CalculationOverflow));
}

#[test]
fn rarity_multiplier_is_fixed() {
    assert_eq!(calculate_rarity_multiplier(), Ok(150));
}

#[test]
fn error_messages() {
    assert_eq!(StakingError::AlreadyStaked.message(), "Terminal is already staked");
    assert_eq!(StakingError::PoolAtCapacity.message(), "Staking pool is at maximum capacity");
    assert_eq!(
        StakingError::AttributesNotInitialized.message(),
        "Attributes plugin not initialized"
    );
}
