use whirlpool::account::{fixed_tick_array_discriminator, oracle_discriminator, program_id, AccountInfo};
use whirlpool::errors::ErrorCode;
use whirlpool::fixed_tick_array::TickArray;
use whirlpool::liquidity_manager::{
    calculate_fee_and_reward_growths, calculate_modify_liquidity, calculate_modify_liquidity_update,
    sync_modify_liquidity_values, ModifyLiquidityUpdate,
};
use whirlpool::oracle::{AdaptiveFeeInfo, AdaptiveFeeVariables};
use whirlpool::oracle_accessor::OracleAccessor;
use whirlpool::position::{Position, PositionRewardInfo, PositionUpdate};
use whirlpool::pubkey::Pubkey;
use whirlpool::sparse_swap::{
    decimal_bytes, derive_tick_array_pda, get_start_tick_indexes, maybe_load_tick_array,
    ProxiedTickArray, SparseSwapTickSequenceBuilder, ZeroedTickArray,
};
use whirlpool::tick::{Tick, TickUpdate};
use whirlpool::tick_array::TickArrayType;
use whirlpool::whirlpool::{Whirlpool, WhirlpoolAccount, WhirlpoolRewardInfo};

fn reward_info(growth: u128) -> WhirlpoolRewardInfo {
    WhirlpoolRewardInfo {
        mint: Pubkey::default(),
        vault: Pubkey::default(),
        authority: Pubkey::default(),
        emissions_per_second_x64: 0,
        growth_global_x64: growth,
    }
}

fn pool(tick_current_index: i32, tick_spacing: u16) -> WhirlpoolAccount {
    WhirlpoolAccount {
        key: Pubkey([7; 32]),
        whirlpool: Whirlpool {
            tick_spacing,
            tick_current_index,
            liquidity: 0,
            fee_growth_global_a: 0,
            fee_growth_global_b: 0,
            reward_last_updated_timestamp: 0,
            reward_infos: [reward_info(0), reward_info(0), reward_info(0)],
        },
    }
}

fn fixed_account(start: i32, key: u8) -> AccountInfo {
    let mut a = TickArray::default();
    a.initialize(&pool(0, 64), start).unwrap();
    let mut data = fixed_tick_array_discriminator().to_vec();
    data.extend(a.encode());
    AccountInfo { key: Pubkey([key; 32]), owner: program_id(), is_writable: true, data }
}

fn system_account(key: Pubkey) -> AccountInfo {
    AccountInfo { key, owner: Pubkey::default(), is_writable: true, data: vec![] }
}

fn starts_of(arrays: &[ProxiedTickArray]) -> Vec<(i32, bool)> {
    arrays
        .iter()
        .map(|a| (a.start_tick_index(), matches!(a, ProxiedTickArray::Initialized(_))))
        .collect()
}

#[test]
fn test_decimal_bytes() {
    assert_eq!(decimal_bytes(0), b"0".to_vec());
    assert_eq!(decimal_bytes(5632), b"5632".to_vec());
    assert_eq!(decimal_bytes(-444928), b"-444928".to_vec());
    assert_eq!(decimal_bytes(i32::MIN), i32::MIN.to_string().into_bytes());
    assert_eq!(decimal_bytes(i32::MAX), i32::MAX.to_string().into_bytes());
}

#[test]
fn test_derive_tick_array_pda() {
    let p = pool(0, 64);
    let program = anchor_lang::solana_program::pubkey::Pubkey::new_from_array(program_id().0);
    for start in [0i32, 5632, -5632, -444928] {
        let expected = anchor_lang::solana_program::pubkey::Pubkey::find_program_address(
            &[b"tick_array", &p.key.0, start.to_string().as_bytes()],
            &program,
        )
        .0;
        let derived = derive_tick_array_pda(&p, start).unwrap();
        assert_eq!(derived.0, expected.to_bytes());
        assert_ne!(derived, p.key);
    }
    assert_ne!(derive_tick_array_pda(&p, 0), derive_tick_array_pda(&p, 5632));
}

#[test]
fn test_get_start_tick_indexes() {
    assert_eq!(get_start_tick_indexes(&pool(0, 64), true), vec![0, -5632, -11264]);
    assert_eq!(get_start_tick_indexes(&pool(0, 64), false), vec![0, 5632, 11264]);
    // the next usable tick up already lies in the next array
    assert_eq!(get_start_tick_indexes(&pool(5600, 64), false), vec![5632, 11264, 16896]);
    assert_eq!(get_start_tick_indexes(&pool(5567, 64), false), vec![0, 5632, 11264]);
    assert_eq!(get_start_tick_indexes(&pool(-1, 64), true), vec![-5632, -11264, -16896]);
    // near the ends only valid start indexes remain
    assert_eq!(get_start_tick_indexes(&pool(443000, 64), false), vec![439296]);
    assert_eq!(get_start_tick_indexes(&pool(-443000, 64), true), vec![-444928]);
}

#[test]
fn test_zeroed_tick_array() {
    let z = ZeroedTickArray::new(5632);
    assert_eq!(z.get_tick(5632 + 64, 64), Ok(Tick::default()));
    assert_eq!(z.get_tick(5632 + 65, 64), Err(ErrorCode::TickNotFound));
    assert_eq!(z.get_next_init_tick_index(5632 + 64, 64, true), Ok(None));
    assert_eq!(z.get_next_init_tick_index(0, 64, true), Err(ErrorCode::InvalidTickArraySequence));
    let p = ProxiedTickArray::new_uninitialized(5632);
    assert_eq!(p.start_tick_index(), 5632);
    assert_eq!(p.get_next_init_tick_index(5632 - 64, 64, false), Ok(None));
    assert_eq!(p.tick_offset(5632 + 130, 64), Ok(2));
    assert_eq!(p.tick_offset(5632, 0), Err(ErrorCode::InvalidTickSpacing));
    assert!(!p.is_min_tick_array());
    assert!(!p.is_max_tick_array(64));
}

#[test]
fn test_maybe_load_tick_array() {
    let p = pool(0, 64);
    assert!(matches!(maybe_load_tick_array(&system_account(Pubkey([1; 32])), &p), Ok(None)));
    assert!(matches!(maybe_load_tick_array(&fixed_account(0, 2), &p), Ok(Some(_))));
    let read_only = AccountInfo { is_writable: false, ..fixed_account(0, 2) };
    assert!(matches!(maybe_load_tick_array(&read_only, &p), Err(ErrorCode::AccountNotMutable)));
}

#[test]
fn test_try_build_loaded_then_stops() {
    let p = pool(100, 64);
    let builder = SparseSwapTickSequenceBuilder::new(vec![fixed_account(0, 2)], None);
    let arrays = builder.try_build(&p, true).unwrap();
    assert_eq!(starts_of(&arrays), vec![(0, true)]);
}

#[test]
fn test_try_build_with_uninitialized_account() {
    let p = pool(100, 64);
    let pda = derive_tick_array_pda(&p, -5632).unwrap();
    let builder = SparseSwapTickSequenceBuilder::new(
        vec![fixed_account(0, 2)],
        Some(vec![system_account(pda), fixed_account(-11264, 3)]),
    );
    let arrays = builder.try_build(&p, true).unwrap();
    assert_eq!(starts_of(&arrays), vec![(0, true), (-5632, false), (-11264, true)]);
    let arrays = builder.try_build(&p, false).unwrap();
    assert_eq!(starts_of(&arrays), vec![(0, true)]);
}

#[test]
fn test_try_build_any_order() {
    let p = pool(100, 64);
    let a = SparseSwapTickSequenceBuilder::new(
        vec![fixed_account(-11264, 3), fixed_account(0, 2), fixed_account(-5632, 4)],
        None,
    );
    let b = SparseSwapTickSequenceBuilder::new(
        vec![fixed_account(-5632, 4)],
        Some(vec![fixed_account(0, 2), fixed_account(-11264, 3), fixed_account(0, 2)]),
    );
    let ra = starts_of(&a.try_build(&p, true).unwrap());
    let rb = starts_of(&b.try_build(&p, true).unwrap());
    assert_eq!(ra, vec![(0, true), (-5632, true), (-11264, true)]);
    assert_eq!(ra, rb);
}

#[test]
fn test_try_build_errors() {
    let p = pool(100, 64);
    let empty = SparseSwapTickSequenceBuilder::new(vec![], None);
    assert!(matches!(empty.try_build(&p, true), Err(ErrorCode::InvalidTickArraySequence)));
    let unrelated = SparseSwapTickSequenceBuilder::new(vec![fixed_account(56320, 2)], None);
    assert!(matches!(unrelated.try_build(&p, true), Err(ErrorCode::InvalidTickArraySequence)));
    let mut wrong_owner = fixed_account(0, 2);
    wrong_owner.owner = Pubkey([9; 32]);
    let bad = SparseSwapTickSequenceBuilder::new(vec![wrong_owner], None);
    assert!(matches!(bad.try_build(&p, true), Err(ErrorCode::AccountOwnedByWrongProgram)));
    let other_pool = pool(100, 64);
    let other = WhirlpoolAccount { key: Pubkey([8; 32]), ..other_pool };
    let builder = SparseSwapTickSequenceBuilder::new(vec![fixed_account(0, 2)], None);
    assert!(matches!(builder.try_build(&other, true), Err(ErrorCode::DifferentWhirlpoolTickArrayAccount)));
}

fn oracle_data(writable_ts: u64) -> Vec<u8> {
    let mut d = oracle_discriminator().to_vec();
    d.extend([7u8; 32]);
    d.extend(writable_ts.to_le_bytes());
    // constants
    d.extend(30u16.to_le_bytes());
    d.extend(600u16.to_le_bytes());
    d.extend(5000u16.to_le_bytes());
    d.extend(4000u32.to_le_bytes());
    d.extend(350_000u32.to_le_bytes());
    d.extend(64u16.to_le_bytes());
    d.extend(64u16.to_le_bytes());
    d.extend([0u8; 16]);
    // variables
    d.extend(1000u64.to_le_bytes());
    d.extend(900u64.to_le_bytes());
    d.extend(20_000u32.to_le_bytes());
    d.extend((-5i32).to_le_bytes());
    d.extend(60_000u32.to_le_bytes());
    d.extend([0u8; 16]);
    d.extend([0u8; 128]);
    d
}

fn oracle_account(writable: bool) -> AccountInfo {
    AccountInfo { key: Pubkey([30; 32]), owner: program_id(), is_writable: writable, data: oracle_data(500) }
}

#[test]
fn test_oracle_accessor_uninitialized() {
    let p = pool(0, 64);
    let mut accessor = OracleAccessor::new(&p, system_account(Pubkey([30; 32]))).unwrap();
    assert_eq!(accessor.is_trade_enabled(0), Ok(true));
    assert!(matches!(accessor.get_adaptive_fee_info(), Ok(None)));
    assert_eq!(accessor.update_adaptive_fee_variables(&None), Ok(()));
    assert!(accessor.account().data.is_empty());
}

#[test]
fn test_oracle_accessor_read_write() {
    let p = pool(0, 64);
    let mut accessor = OracleAccessor::new(&p, oracle_account(true)).unwrap();
    assert_eq!(accessor.is_trade_enabled(499), Ok(false));
    assert_eq!(accessor.is_trade_enabled(500), Ok(true));
    let info = accessor.get_adaptive_fee_info().unwrap().unwrap();
    assert_eq!(info.constants.decay_period, 600);
    assert_eq!(info.constants.max_volatility_accumulator, 350_000);
    assert_eq!(info.variables.tick_group_index_reference, -5);
    assert_eq!(info.variables.volatility_accumulator, 60_000);
    let new_variables = AdaptiveFeeVariables {
        last_reference_update_timestamp: 2000,
        last_major_swap_timestamp: 1900,
        volatility_reference: 1,
        tick_group_index_reference: -77,
        volatility_accumulator: 2,
        reserved: [3; 16],
    };
    let updated = AdaptiveFeeInfo { constants: info.constants, variables: new_variables };
    assert_eq!(accessor.update_adaptive_fee_variables(&Some(updated)), Ok(()));
    let read_back = accessor.get_adaptive_fee_info().unwrap().unwrap();
    assert_eq!(read_back.variables, new_variables);
    assert_eq!(read_back.constants, info.constants);
    assert_eq!(accessor.account().data.len(), 254);
}

#[test]
fn test_oracle_accessor_errors() {
    let p = pool(0, 64);
    let mut read_only = OracleAccessor::new(&p, oracle_account(false)).unwrap();
    let info = read_only.get_adaptive_fee_info().unwrap();
    assert_eq!(read_only.update_adaptive_fee_variables(&info), Err(ErrorCode::AccountNotMutable));
    let wrong_owner = AccountInfo { owner: Pubkey([1; 32]), ..oracle_account(true) };
    assert!(matches!(OracleAccessor::new(&p, wrong_owner), Err(ErrorCode::AccountOwnedByWrongProgram)));
    let short = AccountInfo { data: vec![1, 2, 3], ..oracle_account(true) };
    assert!(matches!(OracleAccessor::new(&p, short), Err(ErrorCode::AccountDiscriminatorNotFound)));
    let mut wrong_disc = oracle_account(true);
    wrong_disc.data[3] ^= 1;
    assert!(matches!(OracleAccessor::new(&p, wrong_disc), Err(ErrorCode::AccountDiscriminatorMismatch)));
}

fn liquidity_update() -> ModifyLiquidityUpdate {
    ModifyLiquidityUpdate {
        whirlpool_liquidity: 500,
        tick_lower_update: TickUpdate {
            initialized: true,
            liquidity_net: 10,
            liquidity_gross: 10,
            fee_growth_outside_a: 1,
            fee_growth_outside_b: 1,
            reward_growths_outside: [0, 0, 0],
        },
        tick_upper_update: TickUpdate {
            initialized: true,
            liquidity_net: -10,
            liquidity_gross: 10,
            fee_growth_outside_a: 0,
            fee_growth_outside_b: 0,
            reward_growths_outside: [0, 0, 0],
        },
        reward_infos: [reward_info(9), reward_info(8), reward_info(7)],
        position_update: PositionUpdate {
            liquidity: 10,
            fee_growth_checkpoint_a: 4,
            fee_owed_a: 0,
            fee_growth_checkpoint_b: 5,
            fee_owed_b: 0,
            reward_infos: [PositionRewardInfo::default(); 3],
        },
    }
}

#[test]
fn test_sync_modify_liquidity_values_one_array() {
    let mut p = pool(0, 64).whirlpool;
    let mut position = Position { tick_lower_index: 64, tick_upper_index: 640, ..Position::default() };
    let mut array = TickArray::default();
    array.initialize(&pool(0, 64), 0).unwrap();
    let update = liquidity_update();
    let r = sync_modify_liquidity_values::<TickArray, TickArray>(&mut p, &mut position, &mut array, None, &update, 1234);
    assert_eq!(r, Ok(()));
    assert_eq!(position.liquidity, 10);
    assert_eq!(position.fee_growth_checkpoint_b, 5);
    assert_eq!(array.get_tick(64, 64), Ok(Tick::from_update(update.tick_lower_update)));
    assert_eq!(array.get_tick(640, 64), Ok(Tick::from_update(update.tick_upper_update)));
    assert_eq!(p.liquidity, 500);
    assert_eq!(p.reward_last_updated_timestamp, 1234);
    assert_eq!(p.reward_infos[2].growth_global_x64, 7);
}

#[test]
fn test_sync_modify_liquidity_values_two_arrays() {
    let mut p = pool(0, 64).whirlpool;
    let mut position = Position { tick_lower_index: 64, tick_upper_index: 5632 + 64, ..Position::default() };
    let mut lower = TickArray::default();
    lower.initialize(&pool(0, 64), 0).unwrap();
    let mut upper = TickArray::default();
    upper.initialize(&pool(0, 64), 5632).unwrap();
    let update = liquidity_update();
    let r = sync_modify_liquidity_values(&mut p, &mut position, &mut lower, Some(&mut upper), &update, 1);
    assert_eq!(r, Ok(()));
    assert_eq!(lower.get_tick(64, 64), Ok(Tick::from_update(update.tick_lower_update)));
    assert_eq!(upper.get_tick(5632 + 64, 64), Ok(Tick::from_update(update.tick_upper_update)));
}

#[test]
fn test_sync_modify_liquidity_values_tick_not_found() {
    let mut p = pool(0, 64).whirlpool;
    let mut position = Position { tick_lower_index: 64, tick_upper_index: 5632 + 64, ..Position::default() };
    let mut lower = TickArray::default();
    lower.initialize(&pool(0, 64), 0).unwrap();
    let update = liquidity_update();
    // the upper bound lies outside the only array
    let r = sync_modify_liquidity_values::<TickArray, TickArray>(&mut p, &mut position, &mut lower, None, &update, 1);
    assert_eq!(r, Err(ErrorCode::TickNotFound));
    assert_eq!(p.liquidity, 0);
    assert_eq!(position.liquidity, 10);
}

#[test]
fn test_start_tick_indexes_are_valid() {
    for current in [-443636, -5633, -1, 0, 5600, 443636] {
        for a_to_b in [true, false] {
            let starts = get_start_tick_indexes(&pool(current, 64), a_to_b);
            assert!(!starts.is_empty() && starts.len() <= 3);
            for s in starts {
                assert!(whirlpool::tick::Tick::check_is_valid_start_tick(s, 64));
            }
        }
    }
}

#[test]
fn test_try_build_with_unreadable_ticks_still_builds() {
    let p = pool(100, 64);
    let mut data = whirlpool::account::dynamic_tick_array_discriminator().to_vec();
    let mut body = vec![0u8; 140];
    body[0..4].copy_from_slice(&0i32.to_le_bytes());
    body[4..36].copy_from_slice(&[7u8; 32]);
    // the tag of tick 3 says initialized, the bitmap says not
    body[55] = 1;
    data.extend(body);
    let account = AccountInfo { key: Pubkey([70; 32]), owner: program_id(), is_writable: true, data };
    let builder = SparseSwapTickSequenceBuilder::new(vec![account], None);
    let arrays = builder.try_build(&p, true).unwrap();
    assert_eq!(starts_of(&arrays), vec![(0, true)]);
}

#[test]
fn test_calculate_modify_liquidity_update() {
    let mut w = pool(100, 64).whirlpool;
    w.fee_growth_global_a = 1000;
    w.fee_growth_global_b = 2000;
    let lower = Tick::default();
    let upper = Tick::default();
    let rewards = [reward_info(30), reward_info(40), reward_info(50)];
    let empty = Position { tick_lower_index: 64, tick_upper_index: 640, ..Position::default() };
    assert!(matches!(
        calculate_modify_liquidity_update(&w, &empty, &lower, &upper, 64, 640, rewards, 0, 0),
        Err(ErrorCode::LiquidityZero)
    ));
    let c = calculate_modify_liquidity_update(&w, &empty, &lower, &upper, 64, 640, rewards, 77, 10).unwrap();
    assert_eq!(c.whirlpool_liquidity, 77);
    // the lower bound lies at or below the current tick: its growths start at the global ones
    assert_eq!(c.tick_lower_update.fee_growth_outside_a, 1000);
    assert_eq!(c.tick_lower_update.liquidity_net, 10);
    // the upper bound lies above it: its growths start at zero
    assert_eq!(c.tick_upper_update.fee_growth_outside_a, 0);
    assert_eq!(c.tick_upper_update.liquidity_net, -10);
    // growths inside are read from the ticks before the change: both uninitialized
    assert_eq!((c.fee_growth_inside_a, c.fee_growth_inside_b), (0, 0));
    assert_eq!(c.reward_growths_inside, [0, 0, 0]);
    assert!(matches!(
        calculate_modify_liquidity_update(&w, &empty, &lower, &upper, 64, 640, rewards, 0, -1),
        Err(ErrorCode::LiquidityUnderflow)
    ));
    let full = Tick { liquidity_gross: u128::MAX, initialized: true, ..Tick::default() };
    assert!(matches!(
        calculate_modify_liquidity_update(&w, &empty, &lower, &full, 64, 640, rewards, 0, 1),
        Err(ErrorCode::LiquidityOverflow)
    ));
}

#[test]
fn test_update_major_swap_timestamp() {
    let mut v = AdaptiveFeeVariables::default();
    assert_eq!(v.update_major_swap_timestamp(Ok(false), 50), Ok(()));
    assert_eq!(v.last_major_swap_timestamp, 0);
    assert_eq!(v.update_major_swap_timestamp(Ok(true), 50), Ok(()));
    assert_eq!(v.last_major_swap_timestamp, 50);
    assert_eq!(v.update_major_swap_timestamp(Err(ErrorCode::LiquidityOverflow), 60), Err(ErrorCode::LiquidityOverflow));
    assert_eq!(v.last_major_swap_timestamp, 50);
}

#[test]
fn test_calculate_modify_liquidity_from_arrays() {
    let w = pool(100, 64).whirlpool;
    let mut array = TickArray::default();
    array.initialize(&pool(0, 64), 0).unwrap();
    let rewards = [reward_info(30), reward_info(40), reward_info(50)];
    let position = Position { tick_lower_index: 64, tick_upper_index: 640, liquidity: 5, ..Position::default() };
    let c = calculate_modify_liquidity(&w, &position, &array, &array, rewards, 9, 10).unwrap();
    assert_eq!(c.tick_lower_update.liquidity_gross, 10);
    assert_eq!(c.whirlpool_liquidity, 9);
    let g = calculate_fee_and_reward_growths(&w, &position, &array, &array, rewards).unwrap();
    assert_eq!(g.tick_lower_update, TickUpdate::from_tick(Tick::default()));
    let outside = Position { tick_lower_index: 64, tick_upper_index: 5632 + 64, liquidity: 5, ..Position::default() };
    assert!(matches!(calculate_modify_liquidity(&w, &outside, &array, &array, rewards, 9, 10), Err(ErrorCode::TickNotFound)));
    let empty = Position { liquidity: 0, ..position };
    assert!(matches!(calculate_fee_and_reward_growths(&w, &empty, &array, &array, rewards), Err(ErrorCode::LiquidityZero)));
}
