use whirlpool::adaptive_fee_tier::AdaptiveFeeTier;
use whirlpool::config_extension::WhirlpoolsConfigExtension;
use whirlpool::errors::ErrorCode;
use whirlpool::lock_config::{LockConfig, LockType, LockTypeLabel};
use whirlpool::oracle::{AdaptiveFeeConstants, AdaptiveFeeVariables, Oracle};
use whirlpool::position::{validate_tick_range_for_whirlpool, Position, PositionRewardInfo, PositionUpdate};
use whirlpool::position_bundle::PositionBundle;
use whirlpool::pubkey::Pubkey;
use whirlpool::whirlpool::{Whirlpool, WhirlpoolAccount, WhirlpoolRewardInfo};

fn reward_info() -> WhirlpoolRewardInfo {
    WhirlpoolRewardInfo {
        mint: Pubkey::default(),
        vault: Pubkey::default(),
        authority: Pubkey::default(),
        emissions_per_second_x64: 0,
        growth_global_x64: 0,
    }
}

fn pool(tick_spacing: u16) -> WhirlpoolAccount {
    WhirlpoolAccount {
        key: Pubkey([7; 32]),
        whirlpool: Whirlpool {
            tick_spacing,
            tick_current_index: 0,
            liquidity: 0,
            fee_growth_global_a: 0,
            fee_growth_global_b: 0,
            reward_last_updated_timestamp: 0,
            reward_infos: [reward_info(), reward_info(), reward_info()],
        },
    }
}

fn constants() -> AdaptiveFeeConstants {
    AdaptiveFeeConstants {
        filter_period: 30,
        decay_period: 600,
        reduction_factor: 5000,
        adaptive_fee_control_factor: 4000,
        max_volatility_accumulator: 350_000,
        tick_group_size: 64,
        major_swap_threshold_ticks: 64,
        reserved: [0; 16],
    }
}

fn variables() -> AdaptiveFeeVariables {
    AdaptiveFeeVariables {
        last_reference_update_timestamp: 1000,
        last_major_swap_timestamp: 900,
        volatility_reference: 20_000,
        tick_group_index_reference: 5,
        volatility_accumulator: 60_000,
        reserved: [0; 16],
    }
}

#[test]
fn test_validate_tick_range() {
    let p = pool(64);
    assert_eq!(validate_tick_range_for_whirlpool(&p, -128, 128), Ok(()));
    assert_eq!(validate_tick_range_for_whirlpool(&p, 128, -128), Err(ErrorCode::InvalidTickIndex));
    assert_eq!(validate_tick_range_for_whirlpool(&p, 128, 128), Err(ErrorCode::InvalidTickIndex));
    assert_eq!(validate_tick_range_for_whirlpool(&p, -100, 128), Err(ErrorCode::InvalidTickIndex));
    let full_only = pool(32768);
    assert_eq!(validate_tick_range_for_whirlpool(&full_only, -32768, 32768), Err(ErrorCode::FullRangeOnlyPool));
    assert_eq!(validate_tick_range_for_whirlpool(&full_only, -425984, 425984), Ok(()));
}

#[test]
fn test_open_position() {
    let p = pool(64);
    let mut position = Position::default();
    assert_eq!(position.open_position(&p, Pubkey([9; 32]), -128, 128), Ok(()));
    assert_eq!(position.whirlpool, p.key);
    assert_eq!(position.position_mint, Pubkey([9; 32]));
    assert_eq!((position.tick_lower_index, position.tick_upper_index), (-128, 128));
    let mut other = Position::default();
    assert_eq!(other.open_position(&p, Pubkey([9; 32]), -100, 128), Err(ErrorCode::InvalidTickIndex));
    assert_eq!(other.tick_lower_index, 0);
}

#[test]
fn test_position_update_and_empty() {
    let mut position = Position::default();
    assert!(Position::is_position_empty(&position));
    let update = PositionUpdate {
        liquidity: 10,
        fee_growth_checkpoint_a: 1,
        fee_owed_a: 2,
        fee_growth_checkpoint_b: 3,
        fee_owed_b: 4,
        reward_infos: [PositionRewardInfo { growth_inside_checkpoint: 5, amount_owed: 6 }; 3],
    };
    position.update(&update);
    assert_eq!(position.liquidity, 10);
    assert_eq!(position.fee_owed_b, 4);
    assert!(!Position::is_position_empty(&position));
    position.update(&PositionUpdate::default());
    assert!(Position::is_position_empty(&position));
    position.update_reward_owed(1, 8);
    assert_eq!(position.reward_infos[1].amount_owed, 8);
    assert!(!Position::is_position_empty(&position));
}

#[test]
fn test_reset_fees_owed() {
    let mut position = Position::default();
    position.fee_owed_a = 5;
    position.fee_owed_b = 6;
    position.liquidity = 3;
    position.reset_fees_owed();
    assert_eq!((position.fee_owed_a, position.fee_owed_b, position.liquidity), (0, 0, 3));
}

#[test]
fn test_reset_position_range() {
    let p = pool(64);
    let mut position = Position::default();
    position.open_position(&p, Pubkey([9; 32]), -128, 128).unwrap();
    position.fee_growth_checkpoint_a = 77;
    position.reward_infos[0].growth_inside_checkpoint = 88;
    assert_eq!(position.reset_position_range(&p, -128, 128), Err(ErrorCode::SameTickRangeNotAllowed));
    assert_eq!(position.reset_position_range(&p, -100, 128), Err(ErrorCode::InvalidTickIndex));
    assert_eq!(position.reset_position_range(&p, -256, 256), Ok(()));
    assert_eq!((position.tick_lower_index, position.tick_upper_index), (-256, 256));
    assert_eq!(position.fee_growth_checkpoint_a, 0);
    assert_eq!(position.reward_infos[0].growth_inside_checkpoint, 0);
    position.liquidity = 1;
    assert_eq!(position.reset_position_range(&p, -64, 64), Err(ErrorCode::ClosePositionNotEmpty));
}

#[test]
fn test_position_bundle_open_close() {
    let mut bundle = PositionBundle::default();
    assert_eq!(bundle.initialize(Pubkey([3; 32])), Ok(()));
    assert!(bundle.is_deletable());
    assert_eq!(bundle.open_bundled_position(9), Ok(()));
    assert_eq!(bundle.position_bitmap[1], 0b10);
    assert!(!bundle.is_deletable());
    assert_eq!(bundle.open_bundled_position(9), Err(ErrorCode::BundledPositionAlreadyOpened));
    assert_eq!(bundle.close_bundled_position(8), Err(ErrorCode::BundledPositionAlreadyClosed));
    assert_eq!(bundle.close_bundled_position(9), Ok(()));
    assert!(bundle.is_deletable());
    assert_eq!(bundle.open_bundled_position(256), Err(ErrorCode::InvalidBundleIndex));
    assert_eq!(bundle.open_bundled_position(255), Ok(()));
    assert_eq!(bundle.position_bitmap[31], 0b1000_0000);
}

#[test]
fn test_bundle_open_then_close_restores() {
    let mut bundle = PositionBundle::default();
    bundle.open_bundled_position(3).unwrap();
    bundle.open_bundled_position(100).unwrap();
    let before = bundle.position_bitmap;
    bundle.open_bundled_position(42).unwrap();
    bundle.close_bundled_position(42).unwrap();
    assert_eq!(bundle.position_bitmap, before);
}

#[test]
fn test_adaptive_fee_tier_initialize() {
    let config = Pubkey([1; 32]);
    let c = constants();
    let mut tier = AdaptiveFeeTier::default();
    assert_eq!(
        tier.initialize(&config, 64, 64, Pubkey::default(), Pubkey([2; 32]), 3000, c.filter_period,
            c.decay_period, c.reduction_factor, c.adaptive_fee_control_factor,
            c.max_volatility_accumulator, c.tick_group_size, c.major_swap_threshold_ticks),
        Err(ErrorCode::InvalidFeeTierIndex)
    );
    assert_eq!(
        tier.initialize(&config, 1024, 0, Pubkey::default(), Pubkey([2; 32]), 3000, c.filter_period,
            c.decay_period, c.reduction_factor, c.adaptive_fee_control_factor,
            c.max_volatility_accumulator, c.tick_group_size, c.major_swap_threshold_ticks),
        Err(ErrorCode::InvalidTickSpacing)
    );
    assert_eq!(
        tier.initialize(&config, 1024, 64, Pubkey::default(), Pubkey([2; 32]), 60_001, c.filter_period,
            c.decay_period, c.reduction_factor, c.adaptive_fee_control_factor,
            c.max_volatility_accumulator, c.tick_group_size, c.major_swap_threshold_ticks),
        Err(ErrorCode::FeeRateMaxExceeded)
    );
    assert_eq!(
        tier.initialize(&config, 1024, 64, Pubkey::default(), Pubkey([2; 32]), 3000, c.filter_period,
            c.filter_period, c.reduction_factor, c.adaptive_fee_control_factor,
            c.max_volatility_accumulator, c.tick_group_size, c.major_swap_threshold_ticks),
        Err(ErrorCode::InvalidAdaptiveFeeConstants)
    );
    assert_eq!(
        tier.initialize(&config, 1024, 64, Pubkey::default(), Pubkey([2; 32]), 3000, c.filter_period,
            c.decay_period, c.reduction_factor, c.adaptive_fee_control_factor,
            c.max_volatility_accumulator, c.tick_group_size, c.major_swap_threshold_ticks),
        Ok(())
    );
    assert_eq!(tier.fee_tier_index, 1024);
    assert_eq!(tier.default_base_fee_rate, 3000);
    assert_eq!(tier.decay_period, 600);
    assert!(!tier.is_permissioned());
    assert!(tier.is_valid_initialize_pool_authority(Pubkey([5; 32])));
    tier.update_initialize_pool_authority(Pubkey([4; 32]));
    assert!(tier.is_permissioned());
    assert!(tier.is_valid_initialize_pool_authority(Pubkey([4; 32])));
    assert!(!tier.is_valid_initialize_pool_authority(Pubkey([5; 32])));
    assert_eq!(tier.update_default_base_fee_rate(60_000), Ok(()));
    assert_eq!(tier.update_default_base_fee_rate(60_001), Err(ErrorCode::FeeRateMaxExceeded));
    assert_eq!(tier.default_base_fee_rate, 60_000);
}

#[test]
fn test_validate_constants() {
    let c = constants();
    let ok = |ts: u16, c: AdaptiveFeeConstants| {
        AdaptiveFeeConstants::validate_constants(ts, c.filter_period, c.decay_period, c.reduction_factor,
            c.adaptive_fee_control_factor, c.max_volatility_accumulator, c.tick_group_size,
            c.major_swap_threshold_ticks)
    };
    assert!(ok(64, c));
    assert!(!ok(64, AdaptiveFeeConstants { filter_period: 0, ..c }));
    assert!(!ok(64, AdaptiveFeeConstants { decay_period: 30, ..c }));
    assert!(!ok(64, AdaptiveFeeConstants { adaptive_fee_control_factor: 100_000, ..c }));
    assert!(!ok(64, AdaptiveFeeConstants { reduction_factor: 10_000, ..c }));
    assert!(!ok(64, AdaptiveFeeConstants { tick_group_size: 0, ..c }));
    assert!(!ok(64, AdaptiveFeeConstants { tick_group_size: 48, ..c }));
    assert!(!ok(64, AdaptiveFeeConstants { max_volatility_accumulator: u32::MAX, ..c }));
    assert!(!ok(64, AdaptiveFeeConstants { major_swap_threshold_ticks: 0, ..c }));
    assert!(!ok(64, AdaptiveFeeConstants { major_swap_threshold_ticks: 5633, ..c }));
    assert!(ok(64, AdaptiveFeeConstants { major_swap_threshold_ticks: 5632, ..c }));
}

#[test]
fn test_config_extension_and_lock_config() {
    let mut ext = WhirlpoolsConfigExtension::default();
    assert_eq!(ext.initialize(Pubkey([1; 32]), Pubkey([2; 32])), Ok(()));
    assert_eq!(ext.token_badge_authority, Pubkey([2; 32]));
    ext.update_config_extension_authority(Pubkey([3; 32]));
    ext.update_token_badge_authority(Pubkey([4; 32]));
    assert_eq!(ext.config_extension_authority, Pubkey([3; 32]));
    assert_eq!(ext.token_badge_authority, Pubkey([4; 32]));
    assert_eq!(ext.whirlpools_config, Pubkey([1; 32]));

    let mut lock = LockConfig {
        position: Pubkey::default(),
        position_owner: Pubkey::default(),
        whirlpool: Pubkey::default(),
        locked_timestamp: 0,
        lock_type: LockTypeLabel::Permanent,
    };
    assert_eq!(lock.initialize(Pubkey([1; 32]), Pubkey([2; 32]), Pubkey([3; 32]), 42, LockType::Permanent), Ok(()));
    assert_eq!(lock.locked_timestamp, 42);
    lock.update_position_owner(Pubkey([8; 32]));
    assert_eq!(lock.position_owner, Pubkey([8; 32]));
    assert_eq!(lock.lock_type, LockTypeLabel::Permanent);
}

#[test]
fn test_update_volatility_accumulator() {
    let c = constants();
    let mut v = variables();
    v.update_volatility_accumulator(8, &c).unwrap();
    assert_eq!(v.volatility_accumulator, 20_000 + 3 * 10_000);
    v.update_volatility_accumulator(-100, &c).unwrap();
    // capped at the maximum
    assert_eq!(v.volatility_accumulator, 350_000);
    v.update_volatility_accumulator(5, &c).unwrap();
    assert_eq!(v.volatility_accumulator, 20_000);
}

#[test]
fn test_update_reference_invalid_timestamp() {
    let c = constants();
    let mut v = variables();
    assert_eq!(v.update_reference(1, 999, &c), Err(ErrorCode::InvalidTimestamp));
    assert_eq!(v, variables());
}

#[test]
fn test_update_reference_within_filter_period() {
    let c = constants();
    let mut v = variables();
    assert_eq!(v.update_reference(1, 1029, &c), Ok(()));
    assert_eq!(v, variables());
}

#[test]
fn test_update_reference_within_decay_period() {
    let c = constants();
    let mut v = variables();
    assert_eq!(v.update_reference(1, 1030, &c), Ok(()));
    assert_eq!(v.tick_group_index_reference, 1);
    assert_eq!(v.volatility_reference, 60_000 * 5000 / 10_000);
    assert_eq!(v.last_reference_update_timestamp, 1030);
    assert!(v.volatility_reference <= variables().volatility_accumulator);
}

#[test]
fn test_update_reference_after_decay_period() {
    let c = constants();
    let mut v = variables();
    assert_eq!(v.update_reference(2, 1600, &c), Ok(()));
    assert_eq!((v.tick_group_index_reference, v.volatility_reference, v.last_reference_update_timestamp), (2, 0, 1600));
    let mut old = variables();
    // a reference older than an hour is reset
    assert_eq!(old.update_reference(3, 1000 + 3601, &c), Ok(()));
    assert_eq!((old.tick_group_index_reference, old.volatility_reference), (3, 0));
}

#[test]
fn test_oracle_initialize() {
    let c = constants();
    let mut oracle = Oracle::default();
    assert_eq!(
        oracle.initialize(Pubkey([1; 32]), Some(77), 64, c.filter_period, c.decay_period, c.reduction_factor,
            c.adaptive_fee_control_factor, c.max_volatility_accumulator, c.tick_group_size,
            c.major_swap_threshold_ticks),
        Ok(())
    );
    assert_eq!(oracle.trade_enable_timestamp, 77);
    assert_eq!(oracle.adaptive_fee_constants, c);
    assert_eq!(oracle.adaptive_fee_variables, AdaptiveFeeVariables::default());
    let mut bad = Oracle::default();
    assert_eq!(
        bad.initialize(Pubkey([1; 32]), None, 64, 0, c.decay_period, c.reduction_factor,
            c.adaptive_fee_control_factor, c.max_volatility_accumulator, c.tick_group_size,
            c.major_swap_threshold_ticks),
        Err(ErrorCode::InvalidAdaptiveFeeConstants)
    );
    assert_eq!(bad.trade_enable_timestamp, 0);
    assert_eq!(bad.whirlpool, Pubkey([1; 32]));
    oracle.update_adaptive_fee_variables(variables());
    assert_eq!(oracle.adaptive_fee_variables, variables());
    assert_eq!(
        oracle.initialize_adaptive_fee_constants(AdaptiveFeeConstants { reduction_factor: 20_000, ..c }, 64),
        Err(ErrorCode::InvalidAdaptiveFeeConstants)
    );
}
